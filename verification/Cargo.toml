[package]
name = "sensor_hub"
version = "0.1.0"
edition = "2021"
publish = false

[dependencies]
serde_json = "1"
uuid = { version = "1", features = ["v4", "serde"] }
rand = "0.8"
serde = { version = "1", features = ["derive"] }
tokio = { version = "1", features = ["full"] }
actix-web = { version = "4", default-features = false }
actix-cors = "*"
futures = "0.3"
libmdns = "*"
mdns = "*"
env_logger = "*"
pin-utils = "0.1"
