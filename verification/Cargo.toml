[package]
name = "tsunu_alive"
version = "0.1.0"
edition = "2021"
publish = false

[dependencies]
serde = { version = "1", features = ["derive"] }
serde_json = "1"
tokio = { version = "1", features = ["full"] }
axum = "*"
tokio-tungstenite = "*"
futures = "0.3"
chrono = "0.4"
dirs = "*"
which = "*"
png = "*"
