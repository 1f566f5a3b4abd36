[package]
name = "aider"
version = "0.1.0"
edition = "2021"
publish = false

[dependencies]
serde_json = "1"
serde = { version = "1", features = ["derive"] }
tokio = { version = "1", features = ["full"] }
reqwest = { version = "0.12", default-features = false, features = ["json", "stream"] }
futures-util = "0.3"
crossterm = { version = "0.28", features = ["event-stream"] }
ratatui = "0.29"
dotenvy = "0.15"
anyhow = "1"
color-eyre = "0.6"
