//! Verified core of a network-traffic and activity monitor.
pub mod text;
pub mod ordering;
pub mod traffic_monitor;
pub mod network_storage;
pub mod activity;
pub mod adapters;
pub mod network_monitor;
pub mod persistent_state;
pub mod state_manager;
pub mod health_monitor;
pub mod logger;
pub mod system_verification;
pub mod network_engine;
