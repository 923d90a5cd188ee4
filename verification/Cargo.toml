[package]
name = "pipo_discord"
version = "0.1.0"
edition = "2021"
publish = false

[dependencies]
anyhow = "=1.0.104"
chrono = "=0.4.45"
deadpool-sqlite = "=0.1.0"
emojis = "=0.2.1"
regex = "=1.13.1"
rusqlite = { version = "=0.25.4", features = ["bundled"] }
serenity = { version = "=0.10.10", default-features = false, features = ["builder", "client", "gateway", "http", "model", "rustls_backend", "utils"] }
tokio = { version = "=1.54.1", features = ["macros", "rt-multi-thread", "sync"] }
tokio-stream = { version = "=0.1.19", features = ["sync"] }
