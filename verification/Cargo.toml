[package]
name = "solana-balanced-client"
version = "0.1.0"
edition = "2021"
publish = false

[dependencies]
chrono = { version = "=0.4.45", default-features = false, features = ["now"] }
serde = "=1.0.229"
serde_json = "=1.0.154"
solana-account = "=2.2.1"
solana-account-decoder-client-types = "=2.3.13"
solana-clock = "=2.2.3"
solana-commitment-config = "=2.2.1"
solana-epoch-info = "=2.2.1"
solana-epoch-schedule = "=2.2.1"
solana-hash = "=2.3.0"
solana-pubkey = "=2.4.0"
solana-rpc-client = "=2.3.13"
solana-rpc-client-api = "=2.3.13"
solana-signature = "=2.3.0"
solana-transaction-error = "=2.2.1"
solana-transaction-status-client-types = "=2.3.13"
tokio = { version = "=1.54.1", features = ["sync"] }
