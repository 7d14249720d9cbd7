[package]
name = "time_app_tracker"
version = "0.1.0"
edition = "2021"
publish = false

[dependencies]
argh = "*"
chrono = "*"
crossterm = "*"
notify-rust = "*"
ratatui = "*"
rusqlite = { version = "*", features = ["bundled"] }
tui-input = "*"
