[package]
name = "kasetophono"
version = "0.1.0"
edition = "2021"
publish = false

[dependencies]
anyhow = "1"
axum = "0.7"
env_logger = "0.11"
futures = "0.3"
log = "0.4"
mime_guess = "2"
parking_lot = "0.12"
percent-encoding = "2"
reqwest = "0.12"
scraper = "*"
serde = { version = "1", features = ["derive"] }
serde_json = "1"
tempfile = "3"
tokio = { version = "1", features = ["macros", "net", "rt-multi-thread", "time"] }
tower-http = { version = "0.5", features = ["compression-gzip"] }
uuid = { version = "1", features = ["serde", "v5"] }
youtube_dl = "*"
