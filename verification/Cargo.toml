[package]
name = "queue_broker"
version = "0.1.0"
edition = "2021"
publish = false

[dependencies]
tokio = { version = "0.2", default-features = false, features = ["sync", "time", "rt-core"] }
actix-web = { version = "3", default-features = false }
serde = { version = "1", features = ["derive"] }
humantime-serde = "1"
env_logger = "0.8"
anyhow = "1"
thiserror = "1"
