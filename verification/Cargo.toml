[package]
name = "state-machine"
version = "0.1.0"
edition = "2021"
publish = false

[dependencies]
axum = "0.8"
dashmap = "6"
dotenvy = "0.15"
libsql = "*"
reqwest = { version = "0.12", default-features = false, features = ["json", "rustls-tls"] }
serde = { version = "1", features = ["derive"] }
serde_json = "1"
tokio = { version = "1", features = ["full"] }
tracing = "0.1"
tracing-subscriber = { version = "0.3", features = ["env-filter"] }
