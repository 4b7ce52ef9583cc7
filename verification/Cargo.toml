[package]
name = "termmenu"
version = "0.1.0"
edition = "2021"
publish = false

[dependencies]
colored = "*"
crossterm = "*"
dialoguer = "*"
prettytable-rs = "*"
ratatui = "*"
serde = { version = "*", features = ["derive"] }
serde_json = "*"
