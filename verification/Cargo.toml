[package]
name = "servy"
version = "0.1.0"
edition = "2021"
publish = false

[dependencies]
url = "*"
anyhow = "*"
axum = "*"
metrics = "*"
metrics-exporter-prometheus = "*"
reqwest = { version = "*", default-features = false }
tokio = { version = "*", features = ["full"] }
tower = { version = "*", features = ["full"] }
tower-http = { version = "*", features = ["trace", "compression-gzip"] }
tracing = "*"
tracing-subscriber = { version = "*", features = ["json"] }
