[package]
name = "solana_data_aggregator"
version = "0.1.0"
edition = "2021"
publish = false

[dependencies]
serde = { version = "*", features = ["derive"] }
serde_json = "*"
tokio = { version = "*", features = ["rt-multi-thread", "sync"] }
solana-program = "=1.18.26"
solana-transaction-status = "=1.18.26"
