[package]
name = "underground_railroad_core"
version = "0.1.0"
edition = "2021"
publish = false

[dependencies]
argon2 = "=0.5.3"
base64 = "=0.21.7"
bincode = "=1.3.3"
blake3 = { version = "1", features = ["pure"] }
chacha20poly1305 = "=0.10.1"
chrono = { version = "=0.4.45", default-features = false, features = ["clock", "std"] }
ed25519-dalek = "=2.2.0"
hex = "=0.4.3"
hkdf = "=0.12.4"
pqcrypto-kyber = "=0.8.1"
pqcrypto-traits = "=0.3.5"
rand = "=0.8.8"
rusqlite = { version = "=0.31.0", features = ["bundled"] }
serde = { version = "=1.0.229", features = ["derive"] }
serde_json = "=1.0.154"
sha2 = "=0.10.9"
thiserror = "=1.0.69"
uuid = { version = "=1.29.0", features = ["v4"] }
x25519-dalek = "=2.0.1"
zeroize = "=1.9.1"
