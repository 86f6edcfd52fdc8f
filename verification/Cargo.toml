[package]
name = "leon"
version = "0.7.0"
edition = "2021"
publish = false

[dependencies]
anyhow = "1"
serde = { version = "1", features = ["derive"] }
serde_json = "1"
toml = "*"
dirs = "*"
ratatui = "*"
crossterm = "*"
cursive = { version = "*", default-features = false, features = ["crossterm-backend"] }
