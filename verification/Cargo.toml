[package]
name = "gens_relay"
version = "0.1.0"
edition = "2021"
publish = false

[dependencies]
bytes = "1"
dotenvy = "0.15"
futures-util = { version = "0.3", default-features = false, features = ["sink"] }
hostname = "0.4"
serde = { version = "1", features = ["derive"] }
serde_json = "1"
tokio = { version = "1", features = ["fs", "io-util", "macros", "net", "rt-multi-thread", "sync", "time"] }
tokio-tungstenite = { version = "0.24", features = ["rustls-tls-webpki-roots"] }
url = "2"
webrtc = "0.11"
