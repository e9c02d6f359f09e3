[package]
name = "rustical"
version = "0.1.0"
edition = "2021"
publish = false

[dependencies]
serde = { version = "=1.0.229", features = ["derive"] }
serde_json = "=1.0.154"
hmac = "=0.12.1"
sha2 = "=0.10.9"
base64 = "=0.22.1"
heck = "=0.5.0"
password-auth = { version = "=1.0.0", features = ["argon2", "pbkdf2"] }
quick-xml = "=0.38.4"
thiserror = "=2.0.21"
uuid = { version = "=1.29.1", features = ["v4"] }
tokio = { version = "=1.54.1", features = ["sync", "time", "rt", "macros"] }
reqwest = { version = "=0.12.28", default-features = false }
