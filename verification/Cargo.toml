[package]
name = "epp_router"
version = "0.1.0"
edition = "2021"
publish = false

[dependencies]
anyhow = "1"
dynamo-kv-router = { version = "~1.4", features = ["standalone-selection"] }
opentelemetry = "=0.31.0"
pyo3 = "0.23"
pyo3-async-runtimes = { version = "0.23", features = ["tokio-runtime"] }
pythonize = "0.23"
serde = { version = "1", features = ["derive"] }
serde_json = "1"
tokio = { version = "1", features = ["rt", "macros", "sync", "time"] }
tokio-stream = "0.1"
tokio-util = "0.7"
tonic = { version = "0.13", default-features = false, features = ["codegen"] }
tracing = "0.1"
tracing-opentelemetry = "0.32"
uuid = { version = "=1.29.0", features = ["v4"] }
