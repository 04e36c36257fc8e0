[package]
name = "rira"
version = "0.1.0"
edition = "2021"
publish = false

[dependencies]
ropey = "1.6"
unicode-width = "0.2"
serde = { version = "1", features = ["derive"] }
toml = "0.8"
clap = { version = "4", features = ["derive"] }
ratatui = "0.29"
log = "0.4"
env_logger = "0.11"
winit = "0.30"
wgpu = "*"
cosmic-text = "*"
pollster = "0.4"
