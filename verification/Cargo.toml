[package]
name = "hermes-yamcs"
version = "0.1.0"
edition = "2021"
publish = false

[dependencies]
base64 = "0.22"
chrono = "0.4"
prost-types = "0.13"
serde = { version = "1", features = ["derive"] }
serde_json = "1"
serde_with = "3"
tonic = { version = "0.12", default-features = false }
tracing = "0.1"
