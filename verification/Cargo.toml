[package]
name = "svm_datum"
version = "0.1.0"
edition = "2021"
publish = false

[dependencies]
gcp_auth = "0.10"
goauth = "0.13"
log = "0.4"
serde = { version = "1", features = ["derive"] }
serde_json = "1"
solana-account = "2"
solana-pubkey = "2"
solana-svm-transaction = "2"
spl-generic-token = "1"
tokio = { version = "1", features = ["macros", "rt-multi-thread", "sync", "time"] }
