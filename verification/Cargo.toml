[package]
name = "siren"
version = "0.1.0"
edition = "2021"
publish = false

[dependencies]
base64 = "0.22"
bytes = "1"
futures-util = { version = "0.3", default-features = false, features = ["std", "async-await"] }
getrandom = "0.2"
once_cell = "1"
pin-project-lite = "0.2"
pretty-bytes = "0.2"
regex = "1"
serde_json = "1"
sha2 = "0.10"
tokio = { version = "1", default-features = false, features = ["io-util"] }
uuid = "1"
worker = "0.6"
