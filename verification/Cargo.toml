[package]
name = "transport_codec"
version = "0.1.0"
edition = "2021"
publish = false

[dependencies]
base64 = "=0.23.1"
serde_json = { version = "=1.0.151", features = ["float_roundtrip"] }
zstd = "=0.14.0"
