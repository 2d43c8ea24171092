[package]
name = "job_scraper"
version = "0.1.0"
edition = "2021"
publish = false

[dependencies]
regex = "1"
url = "2"
serde_json = "1"
chrono = "0.4"
scraper = "*"
tokio = { version = "1", features = ["full"] }
reqwest = { version = "*", default-features = false, features = ["rustls-tls"] }
fantoccini = { version = "*", default-features = false, features = ["rustls-tls"] }
futures = "0.3"
postgrest = "*"
dotenv = "*"
rocket = "*"
rocket_okapi = { version = "*", features = ["swagger"] }
