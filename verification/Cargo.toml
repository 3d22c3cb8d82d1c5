[package]
name = "living_hash"
version = "0.1.0"
edition = "2021"
publish = false

[dependencies]
sha3 = "0.10"
keccak = "0.1"
serde = { version = "1", features = ["derive"] }
actix-web = { version = "4", default-features = false, features = ["macros"] }
tokio = { version = "1", features = ["sync"] }
ethers = { version = "2", default-features = false, features = ["abigen"] }
