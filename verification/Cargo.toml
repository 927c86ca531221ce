[package]
name = "looper_core"
version = "0.1.0"
edition = "2021"
publish = false

[dependencies]
ringbuf = "0.2"
chrono = { version = "0.4", default-features = false, features = ["clock"] }
cpal = "0.14"
hound = "3"
