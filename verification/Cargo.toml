[package]
name = "hurl_lib"
version = "0.1.0"
edition = "2021"
publish = false

[dependencies]
base64 = "*"
brotli = "*"
chrono = "*"
clap = { version = "*", features = ["derive"] }
flate2 = "*"
md5 = "*"
regex = "*"
reqwest = { version = "*", default-features = false, features = ["cookies", "json", "rustls-tls"] }
serde = { version = "*", features = ["derive"] }
serde_json = "*"
serde_urlencoded = "*"
tokio = { version = "*", features = ["rt-multi-thread", "macros"] }
url = "*"
uuid = { version = "*", features = ["v4"] }
