[package]
name = "cockpit_tui"
version = "0.1.0"
edition = "2021"
publish = false

[dependencies]
anyhow = "1"
chrono = "0.4"
crossterm = "*"
rand = "0.10"
ratatui = "*"
serde_json = "1"
similar = "*"
unicode-width = "*"
uuid = { version = "1", features = ["v4"] }
