[package]
name = "pepperbot"
version = "0.1.0"
edition = "2021"
publish = false

[dependencies]
fuzzy-matcher = "0.3"
uuid = { version = "1", features = ["v4"] }
redis = "=0.23.3"
rss = "=2.0.7"
reqwest = { version = "=0.11.27", features = ["json"] }
teloxide = { version = "=0.12.2", features = ["macros"] }
tokio = { version = "1", features = ["macros", "rt-multi-thread"] }
serde = { version = "1", features = ["derive"] }
serde_json = "1"
thiserror = "1"
log = "0.4"
env_logger = "=0.10.2"
axum = "=0.6.20"
axum-client-ip = "=0.4.2"
takecell = "=0.1.1"
