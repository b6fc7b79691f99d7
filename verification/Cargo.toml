[package]
name = "curiefense"
version = "0.1.0"
edition = "2021"
publish = false

[dependencies]
anyhow = "1"
async-std = "1"
chrono = { version = "0.4", features = ["serde"] }
hyperscan = "*"
regex = "1"
serde = { version = "1", features = ["derive"] }
serde_json = "1"
