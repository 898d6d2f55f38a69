[package]
name = "uds"
version = "0.1.0"
edition = "2021"
publish = false

[dependencies]
base64 = "0.13"
md5 = "0.7"
serde_json = "1"
url = "2"
serde = { version = "1", features = ["derive"] }
reqwest = { version = "0.11", default-features = false, features = ["blocking", "json", "multipart", "rustls-tls"] }
oauth2 = "4.4"
clap = "2.34"
ansi_term = "0.12"
error-chain = "0.12"
