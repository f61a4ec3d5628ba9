[package]
name = "telegram_core"
version = "0.1.0"
edition = "2021"
publish = false

[dependencies]
async-trait = "*"
base64 = "*"
crossterm = "*"
dotenvy = "*"
grammers-client = "*"
grammers-mtsender = "*"
grammers-session = "*"
grammers-tl-types = "*"
ratatui = "*"
serde = { version = "*", features = ["derive"] }
sqlite = "*"
thiserror = "*"
time = { version = "*", features = ["formatting", "local-offset"] }
tokio = { version = "*", features = ["full"] }
toml = "*"
tracing = "*"
tracing-appender = "*"
tracing-subscriber = { version = "*", features = ["env-filter"] }
