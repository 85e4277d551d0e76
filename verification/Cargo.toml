[package]
name = "tokio-serial"
version = "0.1.0"
edition = "2021"
publish = false

[dependencies]
futures = "0.1"
mio = "0.6"
mio-serial = "0.8"
tokio-core = "0.1"
