[package]
name = "educlient"
version = "0.1.0"
edition = "2021"
publish = false

[dependencies]
reqwest = { version = "0.12", default-features = false, features = ["blocking", "cookies", "rustls-tls"] }
serde_json = "1"
