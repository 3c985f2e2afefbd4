[package]
name = "gitdiff_tui"
version = "0.1.0"
edition = "2021"
publish = false

[dependencies]
anyhow = "1"
clap = { version = "4", features = ["derive"] }
crossterm = "*"
dirs = "*"
notify = "*"
ratatui = "*"
serde = { version = "1", features = ["derive"] }
serde_json = "1"
similar = "2"
tokio = { version = "1", features = ["full"] }
tracing-appender = "*"
tracing-subscriber = { version = "*", features = ["env-filter"] }
