[package]
name = "drishti"
version = "0.1.0"
edition = "2021"
publish = false

[dependencies]
chrono = "0.4"
serde = { version = "1", features = ["derive"] }
serde_json = "1"
thiserror = "1"
reqwest = { version = "0.12", default-features = false, features = ["json"] }
tokio = { version = "1", features = ["full"] }
tokio-util = "0.7"
arc-swap = "1"
ratatui = "0.29"
crossterm = "0.28"
clap = { version = "4", features = ["derive"] }
color-eyre = "0.6"
figment = { version = "0.10", features = ["toml", "env"] }
rusqlite = { version = "0.32", features = ["bundled"] }
tracing = "0.1"
