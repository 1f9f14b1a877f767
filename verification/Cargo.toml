[package]
name = "sshfm"
version = "0.1.0"
edition = "2021"
publish = false

[dependencies]
ssh2 = "*"
serde = { version = "*", features = ["derive"] }
serde_json = "*"
