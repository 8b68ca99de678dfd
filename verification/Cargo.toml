[package]
name = "brazen"
version = "0.1.0"
edition = "2021"
publish = false

[dependencies]
url = "2"
globset = "0.4"
sha2 = "0.10"
hex = "0.4"
chrono = "0.4"
serde = { version = "1", features = ["derive"] }
serde_json = "1"
toml = "0.8"
rusqlite = { version = "0.31", features = ["bundled"] }
ureq = "2"
rustls = "0.23"
webpki-roots = "0.26"
base64 = "0.22"
uuid = { version = "1", features = ["v4"] }
scraper = "0.19"
image = { version = "0.25", default-features = false, features = ["png"] }
