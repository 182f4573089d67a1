[package]
name = "rspotify"
version = "0.1.0"
edition = "2021"
publish = false

[dependencies]
chrono = "0.4"
getrandom = "0.2"
url = "2"
sha2 = "0.10"
base64 = "0.22"
dotenv = "0.15"

[dev-dependencies]
serde_json = "1"
