[package]
name = "web_scraper"
version = "0.1.0"
edition = "2021"
publish = false

[dependencies]
scraper = "*"
csv = "*"
reqwest = { version = "*", features = ["blocking"] }
serde = { version = "*", features = ["derive"] }
serde_json = "*"
thiserror = "*"
threadpool = "*"
