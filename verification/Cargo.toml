[package]
name = "sendme_core"
version = "0.1.0"
edition = "2021"
publish = false

[dependencies]
anyhow = "1.0.104"
n0-future = "*"
ratatui = "*"
serde = { version = "*", features = ["derive"] }
tokio = { version = "*", features = ["rt", "macros", "time", "sync"] }
