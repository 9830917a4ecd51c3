[package]
name = "zerocast"
version = "0.2.0"
edition = "2021"
publish = false

[dependencies]
anyhow = "1"
bytes = "1"
rtp = "*"
webrtc-util = { version = "*", default-features = false, features = ["marshal"] }
tokio = { version = "1", features = ["rt-multi-thread", "macros", "net", "time", "sync"] }
mdns-sd = "*"
if-addrs = "*"
opus-rs = "*"
cpal = "*"
minifb = { version = "*", default-features = false, features = ["x11"] }
scrap = "*"
