[package]
name = "nauto"
version = "0.1.0"
edition = "2021"
publish = false

[dependencies]
similar = "=2.7.0"
serde = { version = "=1.0.229", features = ["derive"] }
serde_json = "=1.0.151"
serde_yaml = "=0.9.34"
anyhow = "=1.0.104"
uuid = { version = "=1.27.0", features = ["v4"] }
tokio = { version = "1", features = ["rt-multi-thread", "time"] }
reqwest = { version = "0.12", default-features = false, features = ["rustls-tls", "json"] }
async-ssh2-tokio = "0.8"
keyring = { version = "3", features = ["linux-native"] }
age = "0.11"
chrono = "0.4"
