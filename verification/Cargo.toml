[package]
name = "shorty"
version = "0.1.0"
edition = "2021"
publish = false

[dependencies]
anyhow = "=1.0.104"
axum = { version = "=0.8.9", default-features = false, features = ["json", "query", "tokio", "http1", "matched-path"] }
nanoid = "=0.5.0"
serde = { version = "=1.0.229", features = ["derive"] }
thiserror = "=2.0.21"
tokio = { version = "=1.54.1", features = ["sync", "time", "rt", "macros"] }
tokio-util = { version = "=0.7.20", features = ["rt"] }
tracing = "=0.1.44"
url = "=2.5.8"
