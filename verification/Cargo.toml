[package]
name = "ynabber"
version = "0.1.0"
edition = "2021"
publish = false

[dependencies]
chrono = { version = "=0.4.45", features = ["serde"] }
config = { version = "=0.13.4", default-features = false, features = ["toml"] }
home = "=0.5.12"
regex = "=1.13.1"
reqwest = { version = "=0.11.27", default-features = false, features = ["blocking", "json", "rustls-tls"] }
serde = { version = "=1.0.229", features = ["derive"] }
serde_with = "=1.14.0"
ynab-api = "=3.0.0"
