[package]
name = "scrcpy_ws"
version = "0.1.0"
edition = "2021"
publish = false

[dependencies]
tokio = { version = "*", features = ["full"] }
axum = { version = "*", features = ["ws"] }
bytes = "*"
serde = { version = "*", features = ["derive"] }
serde_json = "*"
thiserror = "*"
clap = { version = "*", features = ["derive"] }
tracing = "*"
tracing-subscriber = "*"
