[package]
name = "tokio-seqpacket"
version = "0.5.0"
edition = "2021"
publish = false

[dependencies]
futures = "=0.3.34"
libc = "=0.2.191"
socket2 = { version = "=0.3.19", features = ["pair", "unix"] }
tokio = { version = "=1.54.1", features = ["net"] }
