[package]
name = "light_manager"
version = "0.1.0"
edition = "2021"
publish = false

[dependencies]
axum = "=0.8.9"
config = { version = "=0.15.27", default-features = false, features = ["toml"] }
deadpool = { version = "=0.12.3", features = ["rt_tokio_1"] }
opentelemetry = "=0.31.0"
opentelemetry-appender-tracing = "=0.31.1"
opentelemetry-http = "=0.31.0"
opentelemetry-otlp = { version = "=0.31.1", features = ["grpc-tonic"] }
opentelemetry_sdk = "=0.31.0"
serde = { version = "=1.0.229", features = ["derive"] }
tokio = { version = "=1.54.1", features = ["full"] }
tracing = "=0.1.44"
tracing-appender = "=0.2.5"
tracing-opentelemetry = "=0.32.1"
tracing-subscriber = "=0.3.23"
utoipa = { version = "=5.5.0", features = ["axum_extras"] }
utoipa-scalar = { version = "0.3", features = ["axum"] }
