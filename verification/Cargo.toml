[package]
name = "sharkd_bridge"
version = "0.1.0"
edition = "2021"
publish = false

[dependencies]
base64 = "0.22"
serde = { version = "1", features = ["derive"] }
serde_json = "1"
parking_lot = "0.12"
axum = "0.7"
tokio = { version = "1", features = ["rt-multi-thread", "net", "macros"] }
tower-http = { version = "0.5", features = ["cors"] }
