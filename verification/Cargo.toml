[package]
name = "bak9"
version = "0.1.0"
edition = "2021"
publish = false

[dependencies]
anyhow = "1"
chrono = "0.4"
clap = { version = "4", features = ["derive"] }
colored = "2"
cron = "*"
file_diff = "1"
semver = "1"
serde = { version = "1", features = ["derive"] }
shellexpand = "3"
strip-ansi-escapes = "0.2"
thiserror = "1"
toml = "0.8"
validator = { version = "*", features = ["derive"] }
whoami = "1"
