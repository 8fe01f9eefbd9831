[package]
name = "patam"
version = "0.1.0"
edition = "2021"
publish = false

[dependencies]
chrono = "*"
serde = { version = "*", features = ["derive"] }
actix-web = "*"
awc = "*"
clap = "*"
config = "*"
env_logger = "*"
thiserror = "*"

[dev-dependencies]
percent-encoding = "*"
