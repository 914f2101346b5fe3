[package]
name = "provenance"
version = "0.1.0"
edition = "2021"
publish = false

[dependencies]
sha2 = "0.10"
p256 = "0.13"
pem = "3"
serde = { version = "1", features = ["derive"] }
serde_json = "1"

[dev-dependencies]
hex = "0.4"
