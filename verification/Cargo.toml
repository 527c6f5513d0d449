[package]
name = "ifrs"
version = "0.1.0"
edition = "2021"
publish = false

[dependencies]
clap = { version = "=4.6.7", features = ["derive"] }
env_logger = "=0.11.11"
infrared-rs = "=0.2.0"
log = "=0.4.34"
serde = { version = "=1.0.229", features = ["derive"] }
smarthome-sdk-rs = "=0.6.1"
tokio = { version = "=1.54.1", features = ["full"] }
toml = "=1.1.8"
