[package]
name = "contribution_and_proof"
version = "0.1.0"
edition = "2021"
publish = false

[dependencies]
sha2 = "0.10"
bls-signatures = { version = "*", default-features = false, features = ["pairing"] }
serde = { version = "1", features = ["derive"] }
serde_json = "1"
