[package]
name = "networking"
version = "0.1.0"
edition = "2021"
publish = false

[dependencies]
anyhow = "1"
chrono = { version = "0.4", default-features = false, features = ["clock"] }
csv = "1"
env_logger = "0.11"
image = { version = "0.25", default-features = false, features = ["png"] }
log = "0.4"
slug = "0.1"
thiserror = "1"

[dev-dependencies]
bincode = "1.3"
