[package]
name = "tinny"
version = "0.1.0"
edition = "2021"
publish = false

[dependencies]
anyhow = "1"
argon2 = "0.5"
aws-lc-rs = "1"
clap = { version = "4", features = ["derive"] }
inquire = "0.7"
password-hash = "0.5"
secrecy = "0.10"
serde = { version = "1", features = ["derive"] }
serde_json = "1"
