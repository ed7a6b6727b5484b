[package]
name = "ed25519_hacking"
version = "0.1.0"
edition = "2021"
publish = false

[dependencies]
ed25519-dalek = "1"
rand = "0.7"
serde = { version = "1", features = ["derive"] }
serde_json = "1"
ron = "0.8"
