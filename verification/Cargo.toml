[package]
name = "soundsync"
version = "0.1.0"
edition = "2021"
publish = false

[dependencies]
serde = { version = "=1.0.229", features = ["derive"] }
serde_json = "=1.0.154"
urlencoding = "=2.1.3"
ureq = "=2.12.1"
tiny_http = "=0.12.0"
local-ip-address = "=0.6.13"
arboard = { version = "=3.7.0", default-features = false }
discord-rich-presence = "=1.1.0"
tokio = { version = "=1.54.1", features = ["rt", "rt-multi-thread"] }
