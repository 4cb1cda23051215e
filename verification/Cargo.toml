[package]
name = "wallet_crypto"
version = "0.1.0"
edition = "2021"
publish = false

[dependencies]
sha2 = "=0.11.0"
pbkdf2 = "=0.13.0"
hmac = "=0.13.0"
rand = "=0.10.3"
bip39 = "=3.0.0"

[dev-dependencies]
hex = "=0.4.3"
