[package]
name = "rianixia_thermalcore"
version = "0.1.0"
edition = "2021"
publish = false

[dependencies]
bincode = { version = "2", features = ["serde"] }
inotify = "0.11"
nix = { version = "0.29", features = ["time", "poll"] }
serde = { version = "1", features = ["derive"] }
serde_json = "1"
signal-hook = "0.3"
