[package]
name = "caustic"
version = "0.1.0"
edition = "2021"
publish = false

[dependencies]
uuid = { version = "=1.29.0", features = ["v4"] }
serde = { version = "1", features = ["derive"] }
serde_json = "1"
anyhow = "1"
thiserror = "1"
log = "0.4"
env_logger = "0.11"
chrono = { version = "0.4", features = ["serde"] }
tokio = { version = "1", features = ["macros", "rt-multi-thread", "net"] }
axum = "0.8"
tower-http = { version = "0.6", features = ["cors"] }
aws-config = "=1.12.0"
aws-sdk-s3 = "=1.152.0"
aws-types = "~1.6"
dotenvy = "0.15"
envy = "0.4"
indicatif = "0.17"
image = { version = "0.25", default-features = false, features = ["png", "jpeg"] }
rand = "0.9"
