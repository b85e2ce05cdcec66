[package]
name = "rdf_translator"
version = "0.1.0"
edition = "2021"
publish = false

[dependencies]
jsonpath = "=0.1.1"
rdf = "=0.1.4"
regex = "=1.13.1"
serde = { version = "=1.0.229", features = ["derive"] }
serde_json = { version = "=1.0.154", features = ["float_roundtrip"] }
