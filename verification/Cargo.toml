[package]
name = "loungy"
version = "0.1.0"
edition = "2021"
publish = false

[dependencies]
nucleo = "=0.5.0"
url = "=2.5.8"
regex = "=1.13.1"
whoami = "=1.6.1"
serde = { version = "=1.0.229", features = ["derive"] }
serde_json = "=1.0.154"
clap = { version = "=4.6.7", features = ["derive"] }
toml = "=0.8.23"
catppuccin = "=1.4.0"
jiff = "=0.1.29"
scraper = "=0.29.0"
numbat = { version = "*", default-features = false }
