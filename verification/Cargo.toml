[package]
name = "social_directory"
version = "0.1.0"
edition = "2021"
publish = false

[dependencies]
serde = { version = "1", features = ["derive"] }
serde_json = "1"
reqwest = { version = "0.11", default-features = false }
tokio = { version = "1", features = ["macros", "rt-multi-thread"] }
warp = "0.3"
tokio-cron-scheduler = "*"
pretty_env_logger = "*"
