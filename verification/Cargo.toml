[package]
name = "pro_logue"
version = "0.1.0"
edition = "2021"
publish = false

[dependencies]
anyhow = "1"
chrono = "0.4"
crossterm = "0.27"
env_logger = "0.10"
git2 = "0.18"
log = "0.4"
ratatui = "0.23"
serde = { version = "1", features = ["derive"] }
serde_json = "1"
