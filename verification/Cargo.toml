[package]
name = "fastsp"
version = "0.1.0"
edition = "2021"
publish = false

[dependencies]
url = "=2.5.8"
flate2 = "=1.1.10"
serde = { version = "=1.0.229", features = ["derive"] }
serde_json = "=1.0.154"
anyhow = "=1.0.104"
chrono = "=0.4.45"
uuid = { version = "=1.29.0", features = ["v4"] }
base64 = "=0.22.1"
reqwest = { version = "=0.12.28", default-features = false, features = ["blocking", "json", "rustls-tls"] }
tokio = { version = "=1.54.1", features = ["rt-multi-thread", "macros", "net", "io-util", "sync", "time"] }
tokio-tungstenite = { version = "*", default-features = false, features = ["connect", "rustls-tls-webpki-roots"] }
futures-util = "=0.3.34"
tokio-socks = "*"
