[package]
name = "rust_bitcoin_tx_parser"
version = "0.1.0"
edition = "2021"
publish = false

[dependencies]
hex = "*"
sha2 = "*"
clap = "*"
serde = { version = "*", features = ["derive"] }
serde_json = "*"
