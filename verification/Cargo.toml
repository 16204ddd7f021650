[package]
name = "pallet_cv"
version = "0.1.0"
edition = "2021"
publish = false

[dependencies]
jsonrpc-core = "=18.0.0"
serde = { version = "1", features = ["derive"] }
