[package]
name = "ocr_cli"
version = "0.1.0"
edition = "2021"
publish = false

[dependencies]
clap = { version = "4", features = ["derive"] }
env_logger = "0.11"
image = "0.25"
log = "0.4"

[dev-dependencies]
serde_json = "1"
