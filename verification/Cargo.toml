[package]
name = "chatmod"
version = "0.1.0"
edition = "2021"
publish = false

[dependencies]
linkify = "*"
irc = "*"
anyhow = "*"
serde = { version = "*", features = ["derive"] }
serde_json = "*"
tokio = { version = "*", features = ["full"] }
tokio-stream = "*"
