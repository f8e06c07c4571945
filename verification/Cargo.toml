[package]
name = "perch"
version = "0.1.0"
edition = "2021"
publish = false

[dependencies]
anyhow = "*"
clap = { version = "*", features = ["derive"] }
crossbeam-channel = "*"
crossterm = "*"
dirs = "*"
serde = { version = "*", features = ["derive"] }
toml = "*"
tracing = "*"
tracing-subscriber = { version = "*", features = ["env-filter"] }
