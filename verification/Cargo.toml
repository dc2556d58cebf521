[package]
name = "commit_metadata"
version = "0.1.0"
edition = "2021"
publish = false

[dependencies]
serde_yaml = "0.9"
url = "2"
serde = { version = "1", features = ["derive"] }
