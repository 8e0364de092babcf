[package]
name = "magic_audio_control"
version = "0.1.0"
edition = "2021"
publish = false

[dependencies]
anyhow = "1"
base64 = "0.22"
image = { version = "0.25", default-features = false, features = ["png"] }
log = "0.4"
openaction = "*"
reqwest = { version = "0.12", default-features = false, features = ["json", "rustls-tls"] }
resvg = { version = "*", default-features = false }
serde = { version = "1", features = ["derive"] }
serde_json = "1"
simplelog = "0.12"
tokio = { version = "1", features = ["rt-multi-thread", "macros", "sync", "time"] }
urlencoding = "2"
