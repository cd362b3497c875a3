[package]
name = "twilio"
version = "0.1.0"
edition = "2021"
publish = false

[dependencies]
base64 = "0.13"
rust-crypto = "0.2"
url = "2"
http = "0.2"
isahc = { version = "1", features = ["json"] }
mime = "0.3"
serde = "1"
