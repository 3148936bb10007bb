[package]
name = "token_verifier"
version = "0.1.0"
edition = "2021"
publish = false

[dependencies]
base64 = "=0.22.1"
chacha20poly1305 = "=0.10.1"
hex = "=0.4.3"
hmac = "=0.12.1"
sha2 = "=0.10.9"
pasetors = "=0.7.8"
rusty_paseto = "=0.10.1"
serde_json = "=1.0.154"
thiserror = "=1.0.69"
uuid = { version = "=1.29.0", features = ["v7"] }

[dev-dependencies]
ed25519-dalek = { version = "=2.2.0", features = ["rand_core"] }
rand_core = { version = "=0.6.4", features = ["getrandom"] }
