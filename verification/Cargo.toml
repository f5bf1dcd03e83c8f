[package]
name = "proof_codec"
version = "0.1.0"
edition = "2021"
publish = false

[dependencies]
num-bigint = "=0.4.8"
hex = "=0.4.3"
sha2 = "=0.10.9"
json = "=0.12.4"
risc0-zkvm = { version = "=1.2.6", default-features = false, features = ["std"] }
risc0-groth16 = { version = "=1.2.6", default-features = false, features = ["std", "unstable"] }
risc0-zkp = { version = "=1.2.6", default-features = false, features = ["std"] }
ark-bn254 = "=0.4.0"
ark-groth16 = { version = "=0.4.0", default-features = false }
ark-serialize = "=0.4.2"
bincode = "=1.3.3"
serde = { version = "=1.0.229", features = ["derive"] }
serde_json = "=1.0.154"
clap = { version = "=4.6.7", features = ["derive"] }
tracing-subscriber = { version = "=0.3.23", features = ["env-filter"] }
