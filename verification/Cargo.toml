[package]
name = "oxrdp"
version = "0.1.0"
edition = "2021"
publish = false

[dependencies]
log = "0.4"
openh264 = "*"
raw-window-handle = "0.6"
rustls = { version = "0.23", default-features = false, features = ["ring", "std", "tls12"] }
softbuffer = "0.4"
tokio = { version = "1", features = ["io-util", "macros", "net", "rt-multi-thread", "sync", "time"] }
tokio-rustls = { version = "0.26", default-features = false, features = ["ring", "tls12"] }
wide = "0.7"
winit = "0.30"
x11rb = "0.13"
