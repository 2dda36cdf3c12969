[package]
name = "grocery_lists"
version = "0.1.0"
edition = "2021"
publish = false

[dependencies]
axum = "0.7"
futures = "0.3"
maud = "0.26"
notify = "6"
serde = { version = "1", features = ["derive"] }
serde_json = "1"
tokio = { version = "1", features = ["full"] }
tokio-stream = { version = "0.1", features = ["sync"] }
