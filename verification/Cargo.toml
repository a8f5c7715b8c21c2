[package]
name = "jumpr"
version = "0.1.0"
edition = "2021"
publish = false

[dependencies]
clap = { version = "4", features = ["derive"] }
dirs = "*"
semver = "1"
serde = { version = "1", features = ["derive"] }
serde_json = "1"
toml = "*"
