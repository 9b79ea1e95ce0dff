[package]
name = "wallet_generator"
version = "0.1.0"
edition = "2021"
publish = false

[dependencies]
anyhow = "*"
base64 = "*"
bech32 = "*"
bip39 = "*"
clap = { version = "*", features = ["derive"] }
hex = "*"
indicatif = "*"
num_cpus = "*"
rayon = "*"
ripemd = "*"
secp256k1 = "*"
serde = { version = "*", features = ["derive"] }
serde_json = "*"
sha2 = "*"
sha3 = "*"
tiny-hderive = "*"
