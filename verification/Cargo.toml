[package]
name = "opencord"
version = "0.1.0"
edition = "2021"
publish = false

[dependencies]
uuid = { version = "=1.29.0", features = ["v7"] }
chrono = { version = "=0.4.45", default-features = false, features = ["clock", "std"] }
sha2 = "=0.10.9"
hex = "=0.4.3"
hmac = "=0.12.1"
base64 = "=0.22.1"
serde = { version = "=1.0.229", features = ["derive"] }
serde_json = "=1.0.154"
argon2 = { version = "=0.5.3", features = ["std"] }
async-trait = "=0.1.92"
tokio = { version = "=1.54.1", features = ["sync", "rt"] }
axum = { version = "=0.8.9", default-features = false }
tracing = "=0.1.44"
sea-orm-migration = { version = "1", default-features = false }
