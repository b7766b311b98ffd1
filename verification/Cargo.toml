[package]
name = "stream_registry"
version = "0.1.0"
edition = "2021"
publish = false

[dependencies]
bytes = "*"
lazy_static = "*"
serde = { version = "*", features = ["derive"] }
