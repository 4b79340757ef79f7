[package]
name = "contract"
version = "0.1.0"
edition = "2021"
publish = false

[dependencies]
anyhow = "1"
base62 = "*"
serde = { version = "1", features = ["derive"] }
serde_json = { version = "1", features = ["preserve_order", "float_roundtrip"] }
thiserror = "1"
