[package]
name = "connect4"
version = "0.1.0"
edition = "2021"
publish = false

[dependencies]
axum = "0.8"
futures-core = "0.3"
serde = { version = "1", features = ["derive"] }
serde_json = "1"
tokio = { version = "1", features = ["macros", "net", "rt-multi-thread", "sync", "time"] }
tokio-stream = "0.1"
