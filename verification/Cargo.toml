[package]
name = "repolyze"
version = "0.1.0"
edition = "2021"
publish = false

[dependencies]
anyhow = "=1.0.104"
clap = { version = "=4.6.7", features = ["derive"] }
crossterm = "=0.29.0"
ignore = "=0.4.34"
ratatui = "=0.30.2"
rusqlite = "=0.41.1"
serde = { version = "=1.0.229", features = ["derive"] }
serde_json = "=1.0.154"
thiserror = "=2.0.21"
ureq = "=3.5.1"
