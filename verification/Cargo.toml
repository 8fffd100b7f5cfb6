[package]
name = "xeddsa"
version = "0.1.0"
edition = "2021"
publish = false

[dependencies]
bnum = "0.12"
chrono = "0.4"
colored = "2"
curve25519-dalek = { version = "4", features = ["legacy_compatibility"] }
hex = "0.4"
rand = "0.8"
serde = { version = "1", features = ["derive"] }
serde_json = "1"
sha2 = "0.10"
x25519-dalek = { version = "2", features = ["static_secrets"] }
