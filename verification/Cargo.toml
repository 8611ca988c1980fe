[package]
name = "chat_backend"
version = "0.1.0"
edition = "2021"
publish = false

[dependencies]
dashmap = "=6.1.0"
axum = { version = "=0.8.9", features = ["ws", "multipart"] }
tokio = { version = "=1.54.1", features = ["sync", "rt-multi-thread", "macros", "time", "fs", "net"] }
chrono = "=0.4.45"
rand = "=0.8.5"
sha2 = "=0.10.9"
hmac = "=0.12.1"
sha1 = "=0.10.6"
base64 = "=0.22.1"
uuid = { version = "=1.29.0", features = ["v4"] }
serde = { version = "=1.0.229", features = ["derive"] }
serde_json = "=1.0.154"
tracing = "=0.1.44"
tracing-subscriber = { version = "=0.3.23", features = ["env-filter"] }
futures-util = "=0.3.34"
tokio-tungstenite = "=0.26.2"
url = "=2.5.8"
dotenvy = "=0.15.7"
sysinfo = "=0.33.1"
thiserror = "=2.0.21"
anyhow = "=1.0.104"
sqlx = { version = "=0.8.6", default-features = false, features = ["postgres", "runtime-tokio", "chrono", "uuid", "macros"] }
