[package]
name = "p4tohg"
version = "0.1.0"
edition = "2021"
publish = false

[dependencies]
time = "0.1"
log = "0.4"
env_logger = "0.10"
serde = { version = "1", features = ["derive"] }
serde_derive = "1"
serde_yaml = "0.8"
