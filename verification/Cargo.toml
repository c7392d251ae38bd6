[package]
name = "bibot"
version = "0.1.0"
edition = "2021"
publish = false

[dependencies]
anyhow = "1"
chrono = "0.4"
chrono-tz = "0.10"
poise = "0.6"
rand = "0.8"
reqwest = "0.12"
rusticnotion = "0.5"
scraper = "0.29"
serde = { version = "1", features = ["derive"] }
serde_json = "1"
shuttle-runtime = "0.57"
shuttle-serenity = "0.57"
