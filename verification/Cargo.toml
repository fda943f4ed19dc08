[package]
name = "dnet_p2p"
version = "0.1.0"
edition = "2021"
publish = false

[dependencies]
clap = { version = "4", features = ["derive"] }
env_logger = "*"
eyre = "*"
local-ip-address = "*"
log = "*"
mdns-sd = "0.13"
serde = { version = "1", features = ["derive"] }
serde_json = "1"
serde-txtrecord = "*"
socket2 = "*"
socket-pktinfo = "*"
tokio = { version = "1", features = ["full"] }
tokio-util = "*"
