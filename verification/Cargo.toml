[package]
name = "rjango"
version = "0.1.0"
edition = "2021"
publish = false

[dependencies]
regex = "=1.13.1"
base64 = "=0.22.1"
hmac = "=0.12.1"
sha1 = "=0.10.7"
sha2 = "=0.10.9"
flate2 = "=1.1.10"
serde = { version = "=1.0.229", features = ["derive"] }
serde_json = "=1.0.154"
percent-encoding = "=2.3.2"
toml = "0.8"
urlencoding = "2"
chrono = { version = "0.4", default-features = false, features = ["clock", "std"] }
thiserror = "1"
tokio = { version = "1", features = ["rt-multi-thread"] }
sqlx = { version = "0.7", default-features = false, features = ["runtime-tokio", "sqlite"] }
async-trait = "0.1"
