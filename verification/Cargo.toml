[package]
name = "aooff"
version = "0.1.0"
edition = "2021"
publish = false

[dependencies]
fuzzy-matcher = "=0.3.7"
arc-swap = "=1.9.3"
rkyv = "=0.8.18"
notify = "=8.2.1"
walkdir = "=2.5.0"
toml = "=0.9.8"
serde = { version = "=1.0.229", features = ["derive"] }
ctrlc = "=3.5.2"
env_logger = { version = "=0.11.11", default-features = false }
cosmic-text = "=0.19.0"
layershellev = "=0.19.1"
winit = "=0.30.13"
ratatui = { version = "=0.30.2", default-features = false }
