[package]
name = "webhook_router"
version = "0.1.0"
edition = "2021"
publish = false

[dependencies]
uuid = { version = "1", features = ["v4"] }
serde_json = "1"
clap = { version = "4", features = ["derive"] }
anyhow = "1"
dprint-plugin-markdown = "*"
