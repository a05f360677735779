[package]
name = "waxum"
version = "0.1.0"
edition = "2021"
publish = false

[dependencies]
async-channel = "=2.5.0"
axum = "=0.8.9"
chrono = "=0.4.45"
dashmap = "=6.2.1"
hex = "=0.4.3"
hmac = "=0.12.1"
parking_lot = "=0.12.5"
prometheus = { version = "=0.14.0", default-features = false }
reqwest = { version = "=0.12.28", default-features = false }
serde = { version = "=1.0.229", features = ["derive"] }
serde_json = "=1.0.154"
sha2 = "=0.10.9"
tokio = { version = "=1.54.1", features = ["fs", "rt-multi-thread", "sync", "time"] }
tracing = "=0.1.44"
uuid = { version = "=1.29.0", features = ["v4"] }
wacore = { version = "=0.7.0", default-features = false }
whatsapp-rust = { version = "=0.7.0", default-features = false, features = ["tokio-runtime", "tokio-native"] }
