[package]
name = "dispatch_router"
version = "0.1.0"
edition = "2021"
publish = false

[dependencies]
uuid = { version = "*", features = ["v4"] }
chrono = "*"
axum = { version = "*", features = ["ws"] }
tokio = { version = "*", features = ["full"] }
serde = { version = "*", features = ["derive"] }
serde_json = "*"
prometheus = "*"
dotenvy = "*"
futures = "*"
