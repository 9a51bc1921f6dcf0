[package]
name = "herdr_fleet"
version = "0.1.0"
edition = "2021"
publish = false

[dependencies]
crossterm = "0.29"
ctrlc = "3"
interprocess = "2"
ratatui = { version = "0.29", default-features = false }
serde = { version = "1", features = ["derive"] }
serde_json = "1"
sha2 = "0.10"
tokio = { version = "1", features = ["rt", "sync", "time", "macros"] }
toml = "0.8"
tracing = "0.1"
