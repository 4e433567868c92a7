[package]
name = "ply"
version = "0.1.0"
edition = "2021"
publish = false

[dependencies]
anyhow = "1"
bon = "*"
camino = { version = "1", features = ["serde1"] }
chrono = { version = "0.4", features = ["serde"] }
clap = { version = "4", features = ["derive"] }
clap_complete = "4"
dirs = "*"
hex = "0.4"
htmd = "*"
html-escape = "0.2"
regex = "1"
scraper = "*"
serde = { version = "1", features = ["derive"] }
serde_json = "1"
sha2 = "0.10"
shellexpand = "*"
toml = "*"
tu = "*"
ureq = "*"
url = { version = "2", features = ["serde"] }
