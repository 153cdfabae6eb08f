[package]
name = "zangra"
version = "0.1.0"
edition = "2021"
publish = false

[dependencies]
anyhow = "=1.0.104"
chrono = "=0.4.45"
chrono-tz = "0.6"
itertools = "=0.10.5"
linkify = "=0.9.0"
rand = "=0.8.8"
reqwest = { version = "=0.11.27", default-features = false, features = ["blocking", "json", "rustls-tls"] }
serde = { version = "=1.0.229", features = ["derive"] }
serde_json = "=1.0.154"
serenity = { version = "=0.11.7", features = ["collector"] }
sqlx = { version = "=0.6.3", features = ["runtime-tokio-rustls", "sqlite"] }
tokio = { version = "=1.54.1", features = ["macros", "rt-multi-thread"] }
toml = "0.5"
url = "=2.5.8"
