[package]
name = "movethebytes"
version = "0.1.0"
edition = "2021"
publish = false

[dependencies]
anyhow = "1"
cid = "0.11"
env_logger = "0.10"
futures = "0.3"
if-addrs = "0.7"
log = "0.4"
quinn = "0.9"
rcgen = "0.10"
rustls = { version = "0.20", features = ["dangerous_configuration", "quic"] }
serde_json = "1"
testground = "0.4"
tokio = { version = "1", features = ["full"] }
