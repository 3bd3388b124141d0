[package]
name = "intent_bridge"
version = "0.1.0"
edition = "2021"
publish = false

[dependencies]
soroban-sdk = { version = "=28.0.0", features = ["hazmat-address"] }
stellar-access = "=0.8.0"
stellar-contract-utils = "=0.8.0"
stellar-macros = "=0.8.0"
ark-bn254 = "=0.5.0"
ark-ff = "=0.5.0"

[dev-dependencies]
soroban-sdk = { version = "=28.0.0", features = ["testutils"] }
ark-groth16 = "=0.5.0"
ark-relations = "=0.5.1"
ark-snark = "=0.5.1"
ark-std = "=0.5.0"
