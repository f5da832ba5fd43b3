[package]
name = "http_response"
version = "0.1.0"
edition = "2021"
publish = false

[dependencies]
http = "1"
bytes = "1"
cookie = { version = "0.18", features = ["percent-encode"] }
serde = "1"
serde_json = "1"
futures = "0.3"
