[package]
name = "github-metrics-exporter"
version = "0.1.0"
edition = "2021"
publish = false

[dependencies]
anyhow = "1"
chrono = "0.4"
hyper = { version = "0.14", features = ["full"] }
octocrab = "0.15"
opentelemetry = "0.16"
opentelemetry-prometheus = "0.9"
prometheus = "0.12"
serde = { version = "1", features = ["derive"] }
serde_json = "1"
tokio = { version = "1", features = ["full"] }
