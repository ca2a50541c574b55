[package]
name = "ping_monitor"
version = "0.1.0"
edition = "2021"
publish = false

[dependencies]
dirs = "*"
serde = { version = "*", features = ["derive"] }
serde_json = "*"
surge-ping = "*"
tokio = { version = "*", features = ["rt-multi-thread", "net", "time"] }
