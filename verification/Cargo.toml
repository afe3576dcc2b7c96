[package]
name = "stellaron_lib"
version = "0.1.0"
edition = "2021"
publish = false

[dependencies]
rbook = "=0.7.11"
base64 = "=0.23.1"
scraper = "=0.27.0"
walkdir = "=2.5.0"
argon2 = "=0.6.0"
jsonwebtoken = { version = "=11.1.0", features = ["rust_crypto"] }
chrono = "=0.4.45"
uuid = { version = "=1.27.0", features = ["v4"] }
serde_json = "=1.0.151"
tokio = { version = "=1.53.2", features = ["full"] }
dotenvy = "=0.15.7"
