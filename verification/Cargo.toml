[package]
name = "virtio_sim"
version = "0.1.0"
edition = "2021"
publish = false

[dependencies]
libc = "0.2"
tokio = { version = "1", features = ["full"] }
tokio-stream = "0.1"
futures = "0.3"
pin-project = "1"
lazy_static = "1"
io-uring = "*"
