[package]
name = "zero2prod"
version = "0.1.0"
edition = "2021"
publish = false

[dependencies]
anyhow = "1"
argon2 = "=0.4.1"
async-std = { version = "1", features = ["attributes"] }
base64 = "=0.13.1"
chrono = { version = "=0.4.45", default-features = false, features = ["clock"] }
hex = "=0.4.3"
hmac = "=0.12.1"
http-types = "=2.12.0"
rand = "=0.8.8"
secrecy = "=0.8.0"
serde = { version = "1", features = ["derive"] }
serde_json = "1"
sha2 = "=0.10.9"
sqlx = { version = "=0.6.3", default-features = false, features = ["runtime-async-std-rustls", "postgres", "uuid", "chrono"] }
surf = "2"
thiserror = "1"
tide = "=0.16.0"
uuid = { version = "=1.27.0", features = ["v4"] }
