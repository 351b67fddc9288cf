[package]
name = "innomonitor"
version = "1.1.0"
edition = "2021"
publish = false

[dependencies]
chrono = "0.4"
dashmap = "6"
etherparse = "0.15"
ring = "0.17"
serde = { version = "1", features = ["derive"] }
serde_json = "1"
pcap = "2.3"
rand = "0.9"
dns-lookup = "2"
dirs = "6"
once_cell = "1"
lazy_static = "1"
parking_lot = "0.12"
tokio = { version = "1", features = ["rt-multi-thread", "macros", "time", "sync", "net"] }
axum = "0.8"
tower-http = { version = "0.6", features = ["cors"] }
