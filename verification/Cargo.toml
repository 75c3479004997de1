[package]
name = "qr_paste"
version = "0.1.0"
edition = "2021"
publish = false

[dependencies]
arboard = { version = "*", default-features = false }
axum = { version = "=0.8.9", features = ["multipart", "ws"] }
base64 = "=0.22.1"
dashmap = "=6.2.1"
egui = { version = "*", default-features = false }
enigo = { version = "*", default-features = false, features = ["x11rb"] }
governor = "=0.10.4"
hex = "=0.4.3"
image = { version = "=0.25.10", default-features = false, features = ["png", "jpeg"] }
ipnet = "=2.12.2"
mime_guess = "=2.0.5"
prost = "=0.14.4"
qrcode = "=0.14.1"
rand = "=0.10.3"
regex = "=1.13.1"
reqwest = { version = "=0.13.5", features = ["blocking", "json"] }
rusqlite = { version = "=0.41.1", features = ["bundled"] }
serde = { version = "=1.0.229", features = ["derive"] }
serde_json = "=1.0.154"
sha2 = "=0.11.1"
subtle = "=2.6.1"
tokio = { version = "=1.54.1", features = ["full"] }
tokio-stream = "=0.1.19"
tokio-util = { version = "=0.7.20", features = ["io"] }
toml = "=1.1.8"
tonic = { version = "=0.14.9", features = ["tls-aws-lc", "tls-webpki-roots"] }
tracing = "=0.1.44"
tracing-subscriber = { version = "=0.3.23", features = ["env-filter"] }
url = "=2.5.8"
uuid = { version = "=1.29.0", features = ["v4"] }
