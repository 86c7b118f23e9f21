[package]
name = "tape_proxy"
version = "0.1.0"
edition = "2021"
publish = false

[dependencies]
hyper = { version = "0.14", features = ["full"] }
hyper-rustls = "0.24"
rustls = "0.21"
tokio = { version = "1", features = ["full"] }

[dev-dependencies]
httparse = "1"
