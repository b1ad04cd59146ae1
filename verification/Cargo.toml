[package]
name = "runes_indexer"
version = "0.1.0"
edition = "2021"
publish = false

[dependencies]
hex = "0.4"
bitcoincore-rpc = "*"
serde_json = "1"
