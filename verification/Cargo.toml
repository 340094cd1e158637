[package]
name = "vercel_log_drain"
version = "0.1.0"
edition = "2021"
publish = false

[dependencies]
ring = "*"
serde_json = "*"
anyhow = "*"
axum = "*"
axum-prometheus = "*"
clap = { version = "*", features = ["derive", "env"] }
tokio = { version = "*", features = ["full"] }
tracing = "*"
tracing-subscriber = { version = "*", features = ["json"] }
reqwest = { version = "*", default-features = false, features = ["json"] }
aws-config = "*"
aws-sdk-cloudwatchlogs = "*"

[dev-dependencies]
hex = "*"
