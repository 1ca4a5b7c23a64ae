[package]
name = "oben_gateway"
version = "0.1.0"
edition = "2021"
publish = false

[dependencies]
chrono = { version = "=0.4.45", features = ["serde"] }
sha2 = "=0.10.9"
hex = "=0.4.3"
rand = "=0.8.8"
serde = { version = "=1.0.229", features = ["derive"] }
serde_json = "=1.0.154"
anyhow = "=1.0.104"
tracing = "=0.1.44"
reqwest = { version = "=0.12.28", default-features = false, features = ["json"] }
aes-gcm = "=0.10.3"
base64 = "=0.22.1"
qr2term = "=0.3.3"
tokio = { version = "=1.54.1", features = ["rt", "time", "macros", "sync"] }
tokio-tungstenite = { version = "0.24", features = ["rustls-tls-webpki-roots"] }
futures-util = "0.3"
