[package]
name = "monitor"
version = "0.1.0"
edition = "2021"
publish = false

[dependencies]
rand = "=0.9.5"
regex = "=1.13.1"
actix-cors = "0.7"
actix-web = "4"
chrono = "0.4"
dotenvy = "0.15"
futures = "0.3"
lettre = "0.11"
log = "0.4"
notify = "6"
once_cell = "1"
pretty_env_logger = "0.5"
reqwest = "0.12"
serde = { version = "1", features = ["derive"] }
serde_json = "1"
sqlx = { version = "0.8", default-features = false, features = ["runtime-tokio", "postgres", "chrono"] }
tokio = { version = "1", features = ["full"] }
tokio-cron-scheduler = "0.13"
toml = "0.8"
uuid = { version = "1", features = ["v4"] }
