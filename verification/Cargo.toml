[package]
name = "webhook-runners"
version = "0.1.0"
edition = "2021"
publish = false

[dependencies]
anyhow = "=1.0.104"
aws-config = "=1.13.0"
aws-sdk-ecs = "=1.154.0"
constant_time_eq = "=0.3.1"
hex = "=0.4.3"
hmac = "=0.12.1"
http = "=1.5.0"
jsonwebtoken = "9"
lambda_http = "=1.3.2"
octocrab = "=0.43.0"
serde = { version = "=1.0.229", features = ["derive"] }
serde_json = "=1.0.154"
sha2 = "=0.10.9"
tokio = { version = "=1.54.1", features = ["macros", "rt-multi-thread"] }
tracing = "=0.1.44"
tracing-subscriber = "=0.3.23"
