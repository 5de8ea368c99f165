[package]
name = "fastcgi_server"
version = "0.1.0"
edition = "2021"
publish = false

[dependencies]
chrono = "*"
http = "*"
tokio = { version = "*", features = ["full"] }
tokio-fastcgi = "*"
serde = { version = "*", features = ["derive"] }
serde_json = "*"
anyhow = "*"
log = "*"
env_logger = "*"
