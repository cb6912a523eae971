[package]
name = "env_audit"
version = "0.1.0"
edition = "2021"
publish = false

[dependencies]
regex = "*"
anyhow = "*"
clap = { version = "*", features = ["derive"] }
colored = "*"
comfy-table = "*"
ignore = "*"
rayon = "*"
serde = { version = "*", features = ["derive"] }
serde_json = "*"
toml = "*"
