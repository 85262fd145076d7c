[package]
name = "tonic_interceptor"
version = "0.1.0"
edition = "2021"
publish = false

[dependencies]
http = "*"
tonic = { version = "*", default-features = false }
tower-layer = "*"
tower-service = "*"
