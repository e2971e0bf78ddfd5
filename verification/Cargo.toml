[package]
name = "kameo_snake_handler"
version = "0.1.0"
edition = "2021"
publish = false

[dependencies]
anyhow = "=1.0.104"
async-trait = "=0.1.92"
bincode = "=2.0.1"
futures = "=0.3.34"
kameo = "=0.22.2"
metrics = "=0.24.6"
metrics-exporter-opentelemetry = "=0.2.1"
opentelemetry = "=0.31.0"
opentelemetry-otlp = { version = "=0.31.1", features = ["grpc-tonic"] }
opentelemetry-stdout = "=0.31.0"
opentelemetry_sdk = "=0.31.0"
pyo3 = "=0.30.1"
pyo3-async-runtimes = { version = "=0.30.0", features = ["tokio-runtime"] }
rand = "=0.8.8"
serde = { version = "=1.0.229", features = ["derive"] }
thiserror = "=2.0.21"
tokio = { version = "=1.54.1", features = ["full"] }
tracing = "=0.1.44"
tracing-futures = "=0.2.5"
tracing-opentelemetry = "=0.32.1"
tracing-subscriber = { version = "=0.3.23", features = ["env-filter"] }
