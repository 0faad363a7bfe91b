[package]
name = "dotless"
version = "0.1.0"
edition = "2021"
publish = false

[dependencies]
chrono = "0.4.45"
serde = { version = "1.0.229", features = ["derive"] }
serde_json = "1.0.154"
anyhow = "1.0.104"
tokio = { version = "1.54.1", features = ["full"] }
tokio-stream = { version = "0.1.19", features = ["sync"] }
futures = "0.3.34"
axum = "0.8.9"
tower-http = { version = "0.6.11", features = ["fs"] }
askama = "0.14.0"
reqwest = { version = "0.12.28", default-features = false, features = ["json"] }
tracing = "0.1"
tracing-subscriber = { version = "0.3", features = ["env-filter", "fmt"] }
