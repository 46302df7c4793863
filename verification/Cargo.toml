[package]
name = "aerostage"
version = "0.1.0"
edition = "2021"
publish = false

[dependencies]
anyhow = "1"
clap = { version = "4", features = ["derive"] }
dirs = "6"
figment = { version = "0.10", features = ["toml"] }
regex = "1"
serde = { version = "1", features = ["derive"] }
serde_json = "1"
strsim = "0.11"
thiserror = "2"
toml = "0.9"
which = "8"
