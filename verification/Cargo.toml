[package]
name = "frontier_blocks"
version = "0.1.0"
edition = "2021"
publish = false

[dependencies]
ethereum = "=0.15.0"
ethereum-types = "=0.14.1"
rlp = "=0.5.2"
sp-core = { version = "=34.0.0", default-features = false }
sp-runtime = { version = "=39.0.5", default-features = false }
sp-api = { version = "=34.0.0", default-features = false }
sp-blockchain = { version = "=37.0.1", default-features = false }
sp-consensus = { version = "=0.40.0", default-features = false }
sc-transaction-pool-api = { version = "=37.0.0", default-features = false }
jsonrpsee = { version = "=0.24.11", default-features = false, features = ["server-core", "jsonrpsee-types"] }
