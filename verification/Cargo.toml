[package]
name = "defguard_core"
version = "0.1.0"
edition = "2021"
publish = false

[dependencies]
argon2 = { version = "0.5", features = ["std"] }
rand = "0.8"
otpauth = "*"
tokio = { version = "1", features = ["sync"] }
ssh-key = "*"
chrono = "0.4"
thiserror = "*"
