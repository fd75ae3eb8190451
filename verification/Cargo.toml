[package]
name = "offer_normalizer"
version = "0.1.0"
edition = "2021"
publish = false

[dependencies]
serde_json = "*"
websocket = { version = "*", default-features = false, features = ["sync"] }
