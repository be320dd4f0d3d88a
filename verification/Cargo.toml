[package]
name = "rdt"
version = "0.1.0"
edition = "2021"
publish = false

[dependencies]
argon2 = "0.5"
base64 = "0.22"
chacha20poly1305 = "0.10"
hex = "0.4"
hmac = "0.12"
rand = "0.8"
sha1 = "0.10"
sha2 = "0.10"
subtle = "2"
toml = "0.8"
zeroize = "1"
serde = { version = "1", features = ["derive"] }
serde_json = "1"
tokio = { version = "1", features = ["full"] }
parking_lot = "0.12"
libc = "0.2"
tracing = "0.1"
tracing-subscriber = { version = "0.3", features = ["env-filter", "json"] }
tracing-appender = "0.2"
russh = { version = "0.63", default-features = false, features = ["ring", "flate2", "rsa"] }
russh-sftp = "*"
