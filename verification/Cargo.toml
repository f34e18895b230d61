[package]
name = "moat"
version = "0.1.0"
edition = "2021"
publish = false

[dependencies]
owo-colors = "=4.4.0"
serde = { version = "=1.0.229", features = ["derive"] }
serde_json = "1"
serde_yaml = "=0.9.34"
terminal-light = "=1.9.1"
terminal_size = "=0.4.4"
toml = "=0.8.23"
