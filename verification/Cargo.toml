[package]
name = "browsers"
version = "0.1.0"
edition = "2021"
publish = false

[dependencies]
url = "=2.5.8"
serde = { version = "=1.0.229", features = ["derive"] }
serde_json = "*"
