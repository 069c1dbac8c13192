[package]
name = "uring_driver"
version = "0.1.0"
edition = "2021"
publish = false

[dependencies]
libc = "0.2"
socket2 = { version = "0.4", features = ["all"] }
tokio = { version = "1", default-features = false }
