[package]
name = "adbr_server"
version = "0.1.0"
edition = "2021"
publish = false

[dependencies]
hostname = "*"
rsa = "*"
tokio = { version = "*", features = ["full"] }
rusb = "*"
serde = { version = "*", features = ["derive"] }
serde_yaml = "*"
dirs = "*"
tracing = "*"
lazy_static = "*"

[dev-dependencies]
rand = "0.8"
