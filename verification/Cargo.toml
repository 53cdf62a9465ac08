[package]
name = "ao3_api_rs"
version = "0.1.0"
edition = "2021"
publish = false

[dependencies]
log = "*"
rayon = "*"
regex = "*"
reqwest = { version = "*", default-features = false, features = ["blocking", "cookies"] }
scraper = "*"
serde = { version = "*", features = ["derive"] }
serde_json = "*"
thiserror = "*"
