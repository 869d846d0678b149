[package]
name = "richat_storage"
version = "0.1.0"
edition = "2021"
publish = false

[dependencies]
solana-clock = "*"
anyhow = "*"
futures = "*"
metrics = "*"
metrics-exporter-prometheus = "*"
richat-metrics = "*"
richat-shared = { version = "*", default-features = false }
tokio = { version = "*", features = ["full"] }
tokio-util = "*"
tracing = "*"
