[package]
name = "shuru"
version = "0.1.0"
edition = "2021"
publish = false

[dependencies]
anyhow = "1"
base64 = "0.22"
blake3 = "1"
clap = { version = "4", features = ["derive", "env"] }
crossbeam-channel = "0.5"
eyre = "0.6"
hyper = { version = "1", features = ["full"] }
hyper-util = { version = "0.1", features = ["full"] }
kulfi-id52 = "*"
libc = "0.2"
lru = "*"
rustls = "0.23"
serde = { version = "1", features = ["derive"] }
serde_json = "1"
smoltcp = { version = "0.12", default-features = false, features = ["std", "medium-ethernet", "proto-ipv4", "socket-tcp", "socket-udp"] }
tokio = { version = "1", features = ["full"] }
tracing = "0.1"
tracing-subscriber = { version = "0.3", features = ["env-filter"] }
