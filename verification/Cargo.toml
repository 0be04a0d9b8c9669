[package]
name = "reqwest-ssrf-guard"
version = "0.1.0"
edition = "2021"
publish = false

[dependencies]
async-trait = "0.1"
http = "1"
ipnet = "2"
reqwest = { version = "0.12", default-features = false }
reqwest-middleware = { version = "0.4", default-features = false }
tokio = { version = "1", features = ["net"] }
url = "2"
