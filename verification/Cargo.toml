[package]
name = "tesseract"
version = "0.1.0"
edition = "2021"
publish = false

[dependencies]
clickhouse-rs = "*"
futures = "0.1"
log = "*"
serde = { version = "*", features = ["derive"] }
serde_json = "*"
serde_qs = "*"
