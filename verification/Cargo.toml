[package]
name = "wash_messaging"
version = "0.1.0"
edition = "2021"
publish = false

[dependencies]
anyhow = "=1.0.104"
async-nats = { version = "=0.51.0", default-features = false }
bytes = "=1.12.1"
futures = "=0.3.34"
opentelemetry = "=0.32.0"
opentelemetry-otlp = { version = "=0.32.0", default-features = false, features = ["grpc-tonic", "trace", "metrics", "logs"] }
opentelemetry_sdk = { version = "=0.32.1", features = ["trace", "metrics", "logs"] }
serde = { version = "=1.0.229", features = ["derive"] }
serde_json = "=1.0.154"
tokio = { version = "=1.54.1", features = ["macros", "rt-multi-thread", "sync", "time"] }
tokio-util = "=0.7.20"
tracing = "=0.1.44"
tracing-opentelemetry = "=0.33.0"
uuid = { version = "=1.29.0", features = ["v4"] }
wasmtime = { version = "=47.0.4", default-features = false, features = ["runtime", "std", "async", "component-model", "component-model-async"] }

[dev-dependencies]
tracing-subscriber = "=0.3.23"
