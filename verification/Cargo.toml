[package]
name = "marketlog"
version = "0.1.0"
edition = "2021"
publish = false

[dependencies]
csv = "*"
serde = { version = "*", features = ["derive"] }
serde_json = "*"
notify = "*"
tokio = { version = "*", features = ["rt-multi-thread", "macros", "sync", "time"] }
anyhow = "*"
