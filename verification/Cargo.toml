[package]
name = "fast_bind"
version = "0.1.0"
edition = "2021"
publish = false

[dependencies]
uuid = { version = "*", features = ["v4", "serde"] }
chrono = { version = "*", features = ["serde"] }
serde = { version = "*", features = ["derive"] }
serde_json = "*"
dirs = "*"
directories = "*"
log = "*"
env_logger = "*"
thiserror = "*"
