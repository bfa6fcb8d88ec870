[package]
name = "queuetify"
version = "0.1.0"
edition = "2021"
publish = false

[dependencies]
tokio = { version = "=1.53.2", features = ["full"] }
rspotify = { version = "=0.12.0", default-features = false, features = ["client-reqwest", "reqwest-rustls-tls"] }
sqlx = { version = "=0.6.3", default-features = false, features = ["runtime-tokio-rustls", "postgres", "uuid"] }
uuid = { version = "=1.27.0", features = ["v4"] }
serde = { version = "=1.0.229", features = ["derive"] }
serde_json = "=1.0.151"
anyhow = "=1.0.104"
log = "=0.4.34"
env_logger = "=0.10.2"
