[package]
name = "api_bench"
version = "0.1.0"
edition = "2021"
publish = false

[dependencies]
hex = "0.4"
rand = "0.8"
serde = { version = "1", features = ["derive"] }
serde_json = "1"
serde_yaml = "0.9"
clap = { version = "4", features = ["derive"] }
chrono = "0.4"
log = "0.4"
env_logger = "0.10"
docker-api = "0.14"
futures-util = "0.3"
tokio = { version = "1", features = ["full"] }
solrstice = "*"
actix-web = "4"
awc = "3"
