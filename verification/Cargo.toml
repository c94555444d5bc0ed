[package]
name = "intranet_share"
version = "0.1.0"
edition = "2021"
publish = false

[dependencies]
blake3 = "1"
serde = { version = "1", features = ["derive"] }
serde_json = "1"
tokio = { version = "1", features = ["full"] }
tokio-util = "0.7"
uuid = { version = "1", features = ["v4"] }
mdns-sd = "*"
dirs = "*"
sys-info = "*"
log = "0.4"
anyhow = "1"
thiserror = "*"
