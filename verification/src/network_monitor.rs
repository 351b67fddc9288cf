//! The adapter engine's own tables.
pub mod service_analysis;
