[package]
name = "sect_sim"
version = "0.1.0"
edition = "2021"
publish = false

[dependencies]
rand = "0.8"
uuid = { version = "1", features = ["v4"] }
serde = { version = "1", features = ["derive"] }
serde_json = "1"
tokio = { version = "1", features = ["rt-multi-thread", "macros", "sync", "net"] }
axum = "0.7"
tower-http = { version = "0.5", features = ["cors"] }
dashmap = "5"
