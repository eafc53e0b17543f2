[package]
name = "omnipaxos_kv"
version = "0.1.0"
edition = "2021"
publish = false

[dependencies]
axum = "=0.7.9"
chrono = "=0.4.45"
env_logger = "=0.11.11"
futures = "=0.3.34"
log = "=0.4.35"
omnipaxos = { version = "=0.2.4", features = ["serde"] }
omnipaxos_storage = { version = "=0.2.4", features = ["persistent_storage"] }
reqwest = { version = "=0.12.28", default-features = false, features = ["blocking", "json"] }
serde = { version = "=1.0.229", features = ["derive"] }
serde_json = "=1.0.154"
tokio = { version = "=1.54.1", features = ["full"] }
tokio-serde = { version = "=0.9.0", features = ["bincode"] }
tokio-util = { version = "=0.7.20", features = ["codec"] }
tower-http = { version = "=0.6.11", features = ["cors"] }
urlencoding = "=2.1.3"
