[package]
name = "sacode_cli"
version = "0.1.0"
edition = "2021"
publish = false

[dependencies]
chrono = "0.4"
unicode-width = "0.2"
serde = { version = "1", features = ["derive"] }
serde_json = "1"
anyhow = "1"
