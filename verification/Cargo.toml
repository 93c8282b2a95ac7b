[package]
name = "orderly"
version = "0.1.0"
edition = "2021"
publish = false

[dependencies]
chrono = { version = "=0.4.45", features = ["serde"] }
sha2 = "=0.10.9"
hex = "=0.4.3"
uuid = { version = "=1.29.0", features = ["v4"] }
anyhow = "=1.0.104"
serde = { version = "=1.0.229", features = ["derive"] }
serde_json = "=1.0.154"
walkdir = "=2.5.0"
infer = "=0.22.0"
reqwest = { version = "=0.12.28", default-features = false, features = ["json", "rustls-tls"] }
directories = "=5.0.1"
rusqlite = { version = "=0.31.0", features = ["bundled"] }
tracing = "=0.1.44"
tracing-subscriber = { version = "=0.3.23", features = ["env-filter"] }
