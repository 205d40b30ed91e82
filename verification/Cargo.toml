[package]
name = "elara_kv_component"
version = "0.1.0"
edition = "2021"
publish = false

[dependencies]
jsonrpc-core = "18"
serde = { version = "1", features = ["derive"] }
serde_json = "1"
log = "*"
env_logger = "*"
simplelog = "*"
clap = "*"
tokio = { version = "1", features = ["full"] }
tokio-tungstenite = "*"
tungstenite = "*"
futures = "*"
futures-util = "*"
futures-channel = "*"
rdkafka = "*"
smol = "*"
crossbeam-channel = "*"
chrono = "*"
url = "*"
thiserror = "*"
toml = "*"
actix-web = "*"
async-std = "*"
async-tungstenite = { version = "*", features = ["async-std-runtime"] }
curl = "*"
http = "*"
