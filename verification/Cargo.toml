[package]
name = "shield_cli"
version = "0.1.0"
edition = "2021"
publish = false

[dependencies]
age = "=0.11.5"
anyhow = "=1.0.104"
base64 = "=0.22.1"
bech32 = "=0.9.1"
chacha20poly1305 = "=0.10.1"
clap = { version = "=4.6.7", features = ["derive"] }
dirs = "=5.0.1"
ed25519-dalek = { version = "=2.2.0", features = ["rand_core"] }
hex = "=0.4.3"
rand = "=0.8.8"
reqwest = { version = "=0.12.28", default-features = false, features = ["blocking", "json", "rustls-tls"] }
rpassword = "=7.5.4"
serde = { version = "=1.0.229", features = ["derive"] }
serde_json = "=1.0.154"
sha2 = "=0.10.9"
whoami = "=1.6.1"
x25519-dalek = "=2.0.1"
zeroize = "=1.9.1"
