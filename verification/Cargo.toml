[package]
name = "replibyte"
version = "0.1.0"
edition = "2021"
publish = false

[dependencies]
anyhow = "*"
clap = { version = "*", features = ["derive"] }
env_logger = "*"
indicatif = "*"
prettytable-rs = "*"
serde = { version = "*", features = ["derive"] }
serde_yaml = "*"
timeago = "*"
