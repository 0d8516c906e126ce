[package]
name = "aviator5g"
version = "0.1.0"
edition = "2021"
publish = false

[dependencies]
anyhow = "1"
argh = "0.1"
chrono = { version = "0.4", features = ["serde"] }
env_logger = "0.9"
futures = "0.3"
futures-channel = "0.3"
futures-util = "0.3"
log = "0.4"
rppal = "0.12"
serde = { version = "1", features = ["derive"] }
serde_json = "1"
thiserror = "1"
tokio = { version = "1", features = ["full"] }
tokio-tungstenite = "0.14"
tungstenite = "0.13"
url = "2"
uuid = { version = "0.8", features = ["serde"] }
