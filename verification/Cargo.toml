[package]
name = "maze_ssh"
version = "0.1.0"
edition = "2021"
publish = false

[dependencies]
aes-gcm = "=0.10.3"
argon2 = "=0.5.3"
base64 = "=0.22.1"
rand = "=0.8.8"
sha2 = "=0.10.9"
hex = "=0.4.3"
subtle = "=2.6.1"
uuid = { version = "=1.29.0", features = ["v4"] }
serde = { version = "=1.0.229", features = ["derive"] }
serde_json = "=1.0.154"
chrono = "=0.4.45"
zeroize = { version = "=1.9.1", features = ["derive"] }
ssh-key = { version = "=0.6.7", features = ["ed25519", "rsa", "encryption", "std"] }
signature = "=2.2.0"
dirs = "=5.0.1"
dunce = "=1.0.5"
thiserror = "=1.0.69"
clap = { version = "4", features = ["derive"] }
colored = "2"
