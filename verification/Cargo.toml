[package]
name = "scrapstation"
version = "0.1.0"
edition = "2021"
publish = false

[dependencies]
regex = "=1.13.1"
url = "=2.5.8"
urlencoding = "=2.1.3"
base64 = "=0.22.1"
serde = { version = "=1.0.229", features = ["derive"] }
serde_json = "=1.0.154"
scraper = { version = "=0.20.0", features = ["deterministic"] }
chrono = "=0.4.45"
jsonpath-rust = "=0.7.5"
walkdir = "=2.5.0"
dirs = "=5.0.1"
fastrand = "=2.5.0"
