[package]
name = "astrcode"
version = "0.1.0"
edition = "2021"
publish = false

[dependencies]
serde = { version = "=1.0.229", features = ["derive"] }
serde_json = "=1.0.154"
base64 = "=0.22.1"
tokio = { version = "=1.54.1", features = ["rt", "sync", "time"] }
image = { version = "=0.25.10", default-features = false, features = ["png", "jpeg", "gif", "webp"] }
axum = { version = "=0.8.9", default-features = false }
dashmap = "*"
