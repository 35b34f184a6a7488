[package]
name = "matapan"
version = "0.1.0"
edition = "2021"
publish = false

[dependencies]
sha2 = "=0.10.9"
hex = "=0.4.3"
csv = "=1.4.0"
html-escape = "=0.2.15"
regex = "=1.13.1"
chrono = { version = "=0.4.45", default-features = false, features = ["std", "clock"] }
encoding_rs = "=0.8.44"
serde = { version = "=1.0.229", features = ["derive"] }
serde_json = "=1.0.154"
anyhow = "=1.0.104"
calamine = "=0.38.0"
url = "2"
reqwest = { version = "0.12", default-features = false, features = ["blocking", "json"] }
clap = { version = "4", features = ["derive"] }
