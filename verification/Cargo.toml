[package]
name = "mixyt"
version = "0.1.0"
edition = "2021"
publish = false

[dependencies]
anyhow = "*"
chrono = { version = "*", default-features = false, features = ["clock"] }
clap = { version = "*", features = ["derive"] }
crossterm = "*"
dirs = "*"
fuzzy-matcher = "*"
interprocess = "*"
ratatui = "*"
rodio = { version = "*", default-features = false }
rusqlite = { version = "*", features = ["bundled"] }
serde = { version = "*", features = ["derive"] }
serde_json = "*"
toml = "*"
uuid = { version = "*", features = ["v4"] }
