[package]
name = "caudices"
version = "0.1.0"
edition = "2021"
publish = false

[dependencies]
env_logger = "0.6"
futures = "0.1"
log = "0.4"
quicksilver = { version = "0.3", default-features = false, features = ["fonts"] }
serde = { version = "1", features = ["derive"] }
serde_json = "1"
