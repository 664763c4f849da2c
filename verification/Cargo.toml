[package]
name = "site_monitor"
version = "0.1.0"
edition = "2021"
publish = false

[dependencies]
url = "2"
rand = "0.8"
serde_json = "1"
chrono = "0.4"
reqwest = { version = "0.11", default-features = false, features = ["blocking", "json", "rustls-tls"] }
