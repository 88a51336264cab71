[package]
name = "grscraper"
version = "0.2.3"
edition = "2021"
publish = false

[dependencies]
chrono = "*"
reqwest = { version = "*", default-features = false }
scraper = "*"
serde_json = "*"
urlencoding = "*"
