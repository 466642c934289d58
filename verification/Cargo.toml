[package]
name = "arrows"
version = "0.1.0"
edition = "2021"
publish = false

[dependencies]
bincode = "=1.3.3"
serde = { version = "=1.0.229", features = ["derive"] }
serde_json = "=1.0.154"
uuid = { version = "=1.29.0", features = ["v4"] }
local-ip-address = "=0.6.13"
chrono = "=0.4.45"
lazy_static = "=1.5.1"
parking_lot = "=0.12.5"
typetag = "=0.2.23"
rusqlite = { version = "=0.41.1", features = ["hooks"] }
fallible-streaming-iterator = "=0.1.9"
byte_marks = "=0.1.11"
