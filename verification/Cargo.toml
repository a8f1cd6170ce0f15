[package]
name = "secure_transfer"
version = "0.1.0"
edition = "2021"
publish = false

[dependencies]
ring = "*"
hmac = "*"
sha2 = "*"
csv = "*"
ndarray = "*"
serde = { version = "*", features = ["derive"] }
serde_json = "*"
