[package]
name = "gosub"
version = "0.1.0"
edition = "2021"
publish = false

[dependencies]
regex = "=1.13.1"
anyhow = "=1.0.104"
thiserror = "=1.0.69"
tokio = { version = "=1.54.1", features = ["rt"] }
pin-project = "=1.1.13"
serde_json = "1"
