[package]
name = "invidious_search"
version = "0.1.0"
edition = "2021"
publish = false

[dependencies]
serde_json = "1"
rand = "0.9"
reqwest = { version = "0.12", default-features = false }
tokio = { version = "1", default-features = false, features = ["rt"] }
ytd-rs = "*"
anyhow = "1"
