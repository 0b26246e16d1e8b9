[package]
name = "multiview_control"
version = "0.1.0"
edition = "2021"
publish = false

[dependencies]
base64 = "0.22"
ed25519-dalek = "2"
getrandom = "0.2"
hmac = "*"
serde_json = "1"
sha2 = "*"
subtle = "2"
url = "2"
uuid = { version = "1", features = ["v4"] }
axum = { version = "0.8", default-features = false }
mdns-sd = "*"
prost = "*"
reqwest = { version = "0.12", default-features = false, features = ["json"] }
serde = { version = "1", features = ["derive"] }
tokio = { version = "1", features = ["rt", "rt-multi-thread", "sync", "time", "net", "io-util", "macros", "fs"] }
tokio-rustls = { version = "0.26", default-features = false, features = ["ring", "tls12"] }
tracing = "0.1"
