[package]
name = "graphoid"
version = "0.1.0"
edition = "2021"
publish = false

[dependencies]
hex = "=0.4.3"
base64 = "=0.22.1"
sha2 = { version = "=0.10.9", features = ["oid"] }
sha1 = "=0.10.7"
md-5 = "=0.10.6"
blake2 = "=0.10.6"
blake3 = "=1.8.7"
hmac = "=0.12.1"
pbkdf2 = "=0.12.2"
hkdf = "=0.12.4"
aes-gcm = "=0.10.3"
chacha20poly1305 = "=0.10.1"
ed25519-dalek = "=2.2.0"
x25519-dalek = { version = "=2.0.1", features = ["static_secrets"] }
rsa = "=0.9.10"
p256 = { version = "=0.13.2", features = ["ecdsa"] }
p384 = { version = "=0.13.1", features = ["ecdsa"] }
rand = "=0.8.8"
libloading = "=0.8.9"
lazy_static = "=1.5.1"
