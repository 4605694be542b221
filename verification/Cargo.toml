[package]
name = "lobby"
version = "0.1.0"
edition = "2021"
publish = false

[dependencies]
uuid = { version = "=1.27.0", features = ["v4", "serde"] }
chrono = { version = "=0.4.45", default-features = false, features = ["clock"] }
serde = { version = "=1.0.229", features = ["derive"] }
serde_json = "=1.0.151"
axum = { version = "=0.7.9", features = ["ws"] }
tokio = { version = "=1.53.2", features = ["rt-multi-thread", "macros", "sync", "time", "net"] }
futures = "=0.3.34"
dashmap = "=6.2.1"
