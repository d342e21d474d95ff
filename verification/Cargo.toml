[package]
name = "serve"
version = "0.1.0"
edition = "2021"
publish = false

[dependencies]
chrono = "*"
clap = "*"
serde_json = "*"
tokio = { version = "*", features = ["full"] }
