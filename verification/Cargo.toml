[package]
name = "zk_voting"
version = "0.1.0"
edition = "2021"
publish = false

[dependencies]
k256 = "*"
tiny-keccak = { version = "*", features = ["keccak"] }
serde = { version = "*", features = ["derive"] }
serde_json = "*"
