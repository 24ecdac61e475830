[package]
name = "seoder"
version = "0.1.0"
edition = "2021"
publish = false

[dependencies]
regex = "1"
scraper = "0.17"
serde = { version = "1", features = ["derive"] }
serde_json = "1"
ua_generator = "*"
num_cpus = "1"
tokio = { version = "1", features = ["full"] }
tokio-stream = "0.1"
reqwest = { version = "0.11", features = ["brotli", "gzip"] }
log = "0.4"
env_logger = "0.10"
dirs = "5"
sysinfo = "0.29"
hyper = { version = "0.14", features = ["full"] }
hyper-tls = "0.5"
tungstenite = "0.20"
tokio-tungstenite = "0.20"
futures = "0.3"
futures-util = { version = "0.3", features = ["sink"] }
futures-channel = "0.3"
warp = "0.3"
bytes = "1"
uuid = { version = "1", features = ["v4"] }
tera = "1"
jsonl = "*"
lazy_static = "1"
