[package]
name = "heretek"
version = "0.1.0"
edition = "2021"
publish = false

[dependencies]
chrono = "0.4"
clap = { version = "4", features = ["derive"] }
crossterm = "0.28"
env_logger = "0.11"
log = "0.4"
ratatui = "0.29"
regex = "1"
tui-input = "0.11"
