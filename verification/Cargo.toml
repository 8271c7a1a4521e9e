[package]
name = "fleet_state"
version = "0.1.0"
edition = "2021"
publish = false

[dependencies]
chrono = { version = "=0.4.45", features = ["serde"] }
colored = "=2.2.0"
config = { version = "=0.13.4", default-features = false }
names = { version = "=0.14.0", default-features = false }
prettytable-rs = { version = "=0.10.0", default-features = false }
rusqlite = { version = "=0.31.0", features = ["bundled", "chrono"] }
serde = { version = "=1.0.229", features = ["derive"] }
serde_json = "=1.0.154"
string-builder = "=0.2.0"
yaml-rust = "=0.4.5"
