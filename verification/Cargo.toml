[package]
name = "drover"
version = "0.1.0"
edition = "2021"
publish = false

[dependencies]
similar = "2"
base64 = "0.22"
dirs = "5"
serde = { version = "1", features = ["derive"] }
serde_json = "1"
uuid = { version = "1", features = ["v4"] }
reqwest = { version = "0.12", default-features = false, features = ["json", "rustls-tls"] }
tokio = { version = "1", features = ["rt-multi-thread", "macros"] }
portable-pty = "0.8"
