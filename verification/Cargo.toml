[package]
name = "rnotes"
version = "0.1.0"
edition = "2021"
publish = false

[dependencies]
pulldown-cmark = "=0.13.4"
anyhow = "=1.0.104"
arboard = "=3.6.1"
chrono = "=0.4.45"
crossterm = "=0.29.0"
dirs = "=7.0.0"
git2 = { version = "=0.21.0", default-features = false, features = ["cred"] }
ratatui = "=0.30.2"
serde = { version = "=1.0.229", features = ["derive"] }
serde_json = "=1.0.151"
