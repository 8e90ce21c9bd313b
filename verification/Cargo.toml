[package]
name = "relay_hub"
version = "0.1.0"
edition = "2021"
publish = false

[dependencies]
serde_json = "=1.0.151"
serde_yaml = "=0.9.34"
jsonschema = { version = "=0.58.5", default-features = false }
axum = { version = "=0.8.9", features = ["ws"] }
tokio = { version = "=1.53.2", features = ["full"] }
futures = "=0.3.34"
redis = { version = "=1.7.1", features = ["tokio-comp"] }
serde = { version = "=1.0.229", features = ["derive"] }
uuid = { version = "=1.27.0", features = ["v4"] }
chrono = { version = "=0.4.45", features = ["serde"] }
tracing = "=0.1.44"
tracing-subscriber = { version = "=0.3.23", features = ["env-filter"] }
thiserror = "=2.0.21"
