[package]
name = "broadcast_wsrpc"
version = "0.3.1"
edition = "2021"
publish = false

[dependencies]
async-tungstenite = { version = "=0.23.0", features = ["tokio-runtime"] }
futures = "=0.3.34"
hyper = { version = "=0.14.32", features = ["server", "http1", "tcp", "runtime"] }
log = "=0.4.35"
rmp-serde = "1"
serde = { version = "=1.0.229", features = ["derive"] }
serde_json = "=1.0.154"
thiserror = "=1.0.69"
tokio = { version = "=1.54.1", features = ["full"] }
tokio-stream = "=0.1.19"
url = "=2.5.8"
uuid = { version = "=1.29.0", features = ["v4", "serde"] }
