[package]
name = "backstage"
version = "0.1.0"
edition = "2021"
publish = false

[dependencies]
tokio = { version = "1", features = ["full"] }
futures = "0.3"
serde = { version = "1", features = ["derive"] }
serde_json = "1"
anymap = "0.12"
log = "0.4"
anyhow = "1"
async-trait = "0.1"
async-recursion = "1"
tokio-tungstenite = "*"
cdrs = "2"
