[package]
name = "shared_bitmap"
version = "0.1.0"
edition = "2021"
publish = false

[dependencies]
base64 = "0.22"
itoa = "1"
image = { version = "0.25", default-features = false, features = ["png"] }
axum = "0.7"
tokio = { version = "1", features = ["full"] }
tokio-stream = { version = "0.1", features = ["sync"] }
futures = "0.3"
tower = "0.4"
tower-http = { version = "0.5", features = ["fs", "trace", "cors", "compression-gzip", "compression-br"] }
tracing = "0.1"
tracing-subscriber = { version = "0.3", features = ["env-filter"] }
listenfd = "1"
serde = { version = "1", features = ["derive"] }
