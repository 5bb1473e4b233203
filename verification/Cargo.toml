[package]
name = "nexashell"
version = "0.1.0"
edition = "2021"
publish = false

[dependencies]
aes-gcm = "0.10"
base64 = "0.22"
pbkdf2 = "0.12"
sha2 = "0.10"
rand = "0.8"
machine-uid = "*"
ssh2 = "0.9"
portable-pty = "*"
rusqlite = { version = "*", features = ["bundled"] }
keyring = "2"
dirs = "*"
uuid = { version = "1", features = ["v4"] }
serde = { version = "1", features = ["derive"] }
serde_json = "1"
