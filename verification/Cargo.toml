[package]
name = "ptbr_sources"
version = "0.1.0"
edition = "2021"
publish = false

[dependencies]
base64 = "0.22.1"
md-5 = "0.10.6"
sha2 = "0.10.9"
unicode-normalization = "0.1.26"
serde = { version = "1", features = ["derive"] }
serde_json = "1"
