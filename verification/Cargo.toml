[package]
name = "sstools"
version = "0.1.0"
edition = "2021"
publish = false

[dependencies]
encoding_rs = "*"
nlzss11 = "*"
clap = { version = "*", features = ["derive"] }
anyhow = "*"
log = "*"
env_logger = "*"
