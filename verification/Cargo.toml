[package]
name = "backup_freshness"
version = "0.1.0"
edition = "2021"
publish = false

[dependencies]
async-std = { version = "1", features = ["attributes"] }
chrono = "0.4"
failure = "0.1"
nix = "0.24"
proc-mounts = "0.3"
prometheus-client = "0.16"
regex = "1"
serde_json = "1"
tide = "0.16"
