[package]
name = "age_x25519"
version = "0.1.0"
edition = "2021"
publish = false

[dependencies]
x25519-dalek = "*"
chacha20poly1305 = "*"
hkdf = "*"
sha2 = "*"
rand = "0.8"

[dev-dependencies]
base64 = "*"
