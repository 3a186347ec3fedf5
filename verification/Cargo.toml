[package]
name = "anime_search"
version = "0.2.0"
edition = "2021"
publish = false

[dependencies]
anyhow = "=1.0.104"
axum = { version = "=0.8.9", features = ["multipart"] }
chrono = "=0.4.45"
futures = "=0.3.34"
libxml = "=0.3.3"
once_cell = "=1.21.4"
reqwest = { version = "=0.12.28", features = ["json", "gzip", "brotli"] }
serde = { version = "=1.0.229", features = ["derive"] }
serde_json = "=1.0.154"
thiserror = "=1.0.69"
tokio = { version = "=1.54.1", features = ["full"] }
tokio-stream = "=0.1.19"
tower-http = { version = "=0.6.11", features = ["cors"] }
tracing = "=0.1.44"
tracing-subscriber = "=0.3.23"
url = "=2.5.8"
urlencoding = "=2.1.3"
