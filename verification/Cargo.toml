[package]
name = "guichet"
version = "0.1.0"
edition = "2021"
publish = false

[dependencies]
uuid = { version = "*", features = ["v4"] }
serde = { version = "*", features = ["derive"] }
serde_json = "*"
tokio = { version = "*", features = ["full"] }
axum = "*"
futures = "*"
async-stream = "*"
rusqlite = { version = "*", features = ["bundled"] }
local-ip-address = "*"
