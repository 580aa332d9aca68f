[package]
name = "jobowalls"
version = "0.1.15"
edition = "2021"
publish = false

[dependencies]
anyhow = "1"
clap = { version = "4", features = ["derive"] }
dirs = "*"
serde = { version = "1", features = ["derive"] }
serde_json = "1"
time = { version = "0.3", features = ["serde", "formatting", "parsing", "local-offset", "macros"] }
toml = "*"
base64 = "*"
