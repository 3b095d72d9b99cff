[package]
name = "player"
version = "0.1.0"
edition = "2021"
publish = false

[dependencies]
rand = "=0.10.3"
serde_json = "=1.0.151"
chrono = "=0.4.45"
color-eyre = "=0.6.5"
crossterm = "=0.29.0"
ratatui = "=0.30.2"
reqwest = { version = "=0.13.5", default-features = false, features = ["blocking", "json", "query"] }
