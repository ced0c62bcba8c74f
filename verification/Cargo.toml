[package]
name = "arbitrage_bot"
version = "0.1.0"
edition = "2021"
publish = false

[dependencies]
serde_json = "=1.0.154"
anyhow = "=1.0.104"
log = "=0.4.34"
env_logger = "=0.11.11"
futures-core = "=0.3.34"
futures-util = { version = "=0.3.34", features = ["sink"] }
async-stream = "=0.3.6"
tokio = { version = "=1.54.1", features = ["macros", "rt-multi-thread", "time", "net"] }
tokio-tungstenite = { version = "=0.30.0", features = ["native-tls"] }
