[package]
name = "license_gate"
version = "0.1.0"
edition = "2021"
publish = false

[dependencies]
base64 = "0.22"
chrono = { version = "0.4", default-features = false, features = ["std", "clock", "serde"] }
ed25519-dalek = { version = "2", features = ["rand_core"] }
hex = "0.4"
machine-uid = "0.5"
rand_core = { version = "0.6", features = ["getrandom"] }
serde = { version = "1", features = ["derive"] }
serde_json = "1"
sha2 = "0.10"
