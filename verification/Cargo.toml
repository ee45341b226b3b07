[package]
name = "forecast"
version = "0.1.0"
edition = "2021"
publish = false

[dependencies]
chrono = { version = "=0.4.45", features = ["serde"] }
actix-web = { version = "4", default-features = false, features = ["macros"] }
actix-files = "0.6"
sqlx = { version = "0.7", default-features = false, features = ["runtime-tokio", "sqlite"] }
serde = { version = "1", features = ["derive"] }
serde_json = "1"
anyhow = "1"
log = "0.4"
env_logger = "0.11"
