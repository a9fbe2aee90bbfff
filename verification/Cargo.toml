[package]
name = "noise_xx"
version = "0.1.0"
edition = "2021"
publish = false

[dependencies]
blake2 = "=0.9.2"
chacha20poly1305 = "=0.9.1"
hkdf = "=0.11.0"
x25519-dalek = "=1.2.0"
base64 = "=0.13.1"
minicbor = { version = "=0.12.1", features = ["half"] }
serde_json = "=1.0.154"

[dev-dependencies]
snow = "=0.8.0"
