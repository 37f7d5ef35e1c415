[package]
name = "mirishita_info_bot"
version = "0.1.0"
edition = "2021"
publish = false

[dependencies]
chrono = { version = "=0.4.45", features = ["serde"] }
telegram-bot-raw = "=0.8.0"
serde = { version = "=1.0.229", features = ["derive"] }
serde_json = "=1.0.154"
serde_repr = "=0.1.21"
worker = "=0.8.7"
