[package]
name = "rustrate"
version = "0.1.0"
edition = "2021"
publish = false

[dependencies]
urlencoding = "=2.1.3"
chrono = "=0.4.45"
tokio = { version = "=1.53.2", features = ["rt-multi-thread", "macros", "net", "io-util", "time"] }
tokio-rustls = "=0.26.6"
rustls-pki-types = "=1.15.1"
