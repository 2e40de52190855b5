[package]
name = "antelope_rs"
version = "0.1.0"
edition = "2021"
publish = false

[dependencies]
antelope-client = "*"
base64 = "*"
chrono = "*"
hex = "*"
pyo3 = { version = "0.24", features = ["rust_decimal"] }
pyo3-log = "*"
rust_decimal = "*"
serde = { version = "*", features = ["derive"] }
serde_json = "*"
