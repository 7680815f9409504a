[package]
name = "opengoose"
version = "0.2.0"
edition = "2021"
publish = false

[dependencies]
anyhow = "=1.0.104"
async-trait = "=0.1.92"
axum = "=0.8.9"
chrono = "=0.4.45"
clap = { version = "=4.6.7", features = ["derive"] }
crossterm = { version = "=0.29.0", features = ["event-stream"] }
dialoguer = "=0.12.0"
dirs = "=7.0.0"
futures = "=0.3.34"
ratatui = "=0.30.2"
rmcp = { version = "*", default-features = false }
serde = { version = "=1.0.229", features = ["derive"] }
serde_json = "=1.0.154"
tokio = { version = "=1.54.1", features = ["full"] }
tokio-stream = { version = "=0.1.19", features = ["sync"] }
tracing = "=0.1.44"
tracing-subscriber = { version = "=0.3.23", features = ["env-filter"] }
unicode-width = "=0.2.3"
