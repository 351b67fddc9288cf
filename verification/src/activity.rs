//! Activity time tracking: the tracker's decisions on each input event, the
//! encrypted log file format, and the day timeline built from a log.
pub mod input;
pub mod tracker;
pub mod log_file;
pub mod line;
pub mod timeline;
