//! Daily network summaries: session records, consolidation of many small
//! sessions into half-hour groups, and the per-day totals.
pub mod types;
pub mod consolidation;
pub mod summary;
pub mod manager;
pub mod files;
pub mod retention;
