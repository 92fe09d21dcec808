[package]
name = "solar_front"
version = "0.1.0"
edition = "2021"
publish = false

[dependencies]
memchr = "2"
alloy-primitives = { version = "1", default-features = false, features = ["std"] }
anstyle = "1"
rayon = "1"
