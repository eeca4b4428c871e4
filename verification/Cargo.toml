[package]
name = "hashline_transaction"
version = "0.1.0"
edition = "2021"
publish = false

[dependencies]
sha2 = "0.10"
xxhash-rust = { version = "0.8", features = ["xxh32"] }
serde = { version = "1", features = ["derive"] }
serde_json = "1"
