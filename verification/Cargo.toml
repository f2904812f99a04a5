[package]
name = "settlement_core"
version = "0.1.0"
edition = "2021"
publish = false

[dependencies]
num = "0.4"
primitive-types = "0.12"
chrono = { version = "0.4", default-features = false, features = ["clock"] }
serde = { version = "1", features = ["derive"] }
serde_with = "3"
serde_json = "1"
anyhow = "1"
warp = "0.3"
