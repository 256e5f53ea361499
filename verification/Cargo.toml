[package]
name = "quick_crawler"
version = "0.1.0"
edition = "2021"
publish = false

[dependencies]
scraper = "=0.29.0"
url = "=2.5.8"
dashmap = "=6.2.1"
ratelimit_meter = "=4.1.1"
ratelimit_futures = "=0.0.1"
futures = { version = "=0.3.34", features = ["compat"] }
async-std = { version = "=1.13.2", features = ["unstable"] }
surf = { version = "=2.3.2", default-features = false, features = ["h1-client-rustls"] }
