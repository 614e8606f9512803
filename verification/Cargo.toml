[package]
name = "kbotop"
version = "0.1.0"
edition = "2021"
publish = false

[dependencies]
roxmltree = "0.20"
toml = "0.8"
serde = { version = "1", features = ["derive"] }
serde_json = "1"
ureq = "2"
clap = { version = "4", features = ["derive"] }
thiserror = "1"
directories = "5"
crossterm = "0.29"
signal-hook = "0.3"
anyhow = "1"
