[package]
name = "mc_probe"
version = "0.1.0"
edition = "2021"
publish = false

[dependencies]
anyhow = "1.0"
flate2 = "1.0"
indicatif = "0.17"
serde = { version = "1.0", features = ["derive"] }
serde_json = "1.0"
tokio = { version = "1", features = ["full"] }
