[package]
name = "mio_websocket"
version = "0.1.0"
edition = "2021"
publish = false

[dependencies]
sha1 = "0.10"
rustc-serialize = "0.3"
mio = { version = "1", features = ["os-poll", "net"] }
http-muncher = "0.3"
