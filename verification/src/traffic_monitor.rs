//! Per-adapter traffic analysis: record types, packet de-duplication,
//! service naming and statistics bookkeeping.
pub mod types;
pub mod packets;
pub mod service_analysis;
pub mod host_analysis;
pub mod deduplication;
pub mod tables;
pub mod monitor;
pub mod simulation;
