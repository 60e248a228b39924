[package]
name = "codex_monitor_daemon"
version = "0.1.0"
edition = "2021"
publish = false

[dependencies]
ignore = "*"
serde = { version = "*", features = ["derive"] }
serde_json = "*"
tokio = { version = "*", features = ["rt", "net", "io-util", "sync", "process", "time"] }
uuid = { version = "*", features = ["v4"] }
