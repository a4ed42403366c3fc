[package]
name = "claude_px"
version = "0.1.0"
edition = "2021"
publish = false

[dependencies]
anyhow = "*"
clap = { version = "*", features = ["derive"] }
colored = "*"
crossterm = "*"
dirs = "*"
ratatui = "*"
serde = { version = "*", features = ["derive"] }
serde_json = "*"
url = "*"
