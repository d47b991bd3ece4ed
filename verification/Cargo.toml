[package]
name = "hexai"
version = "2.0.0"
edition = "2021"
publish = false

[dependencies]
anyhow = "=1.0.104"
async-stream = "=0.3.6"
axum = { version = "=0.7.9", features = ["multipart"] }
chrono = "=0.4.45"
crossterm = { version = "=0.28.1", features = ["event-stream"] }
dashmap = "=5.5.3"
futures = "=0.3.34"
governor = "=0.6.3"
jsonwebtoken = "=9.3.1"
meval = "=0.2.0"
mime_guess = "=2.0.5"
pdf-extract = "=0.7.12"
ratatui = "=0.29.0"
redis = { version = "=0.25.5", features = ["tokio-comp", "connection-manager"] }
regex = "=1.13.1"
reqwest = { version = "=0.12.28", default-features = false, features = ["json", "stream", "rustls-tls"] }
rusqlite = { version = "=0.31.0", features = ["bundled"] }
scraper = "=0.20.0"
serde = { version = "=1.0.229", features = ["derive"] }
serde_json = { version = "=1.0.154", features = ["preserve_order", "raw_value"] }
textwrap = "=0.16.4"
thiserror = "=1.0.69"
tokio = { version = "=1.54.1", features = ["full"] }
tokio-stream = "=0.1.19"
tower-http = { version = "=0.5.2", features = ["cors", "limit"] }
tracing = "=0.1.44"
tracing-subscriber = { version = "=0.3.23", features = ["env-filter"] }
urlencoding = "=2.1.3"
uuid = { version = "=1.29.0", features = ["v4"] }
walkdir = "=2.5.0"
