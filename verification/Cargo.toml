[package]
name = "blocktree"
version = "0.1.0"
edition = "2021"
publish = false

[dependencies]
chrono = "*"
hex = "*"
rs_merkle = "*"
sha2 = "*"
sha3 = "*"
nalgebra = "*"
rand = "*"
tokio = { version = "*", features = ["sync", "macros", "rt-multi-thread"] }
