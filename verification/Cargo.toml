[package]
name = "bitcoin_ctf"
version = "0.1.0"
edition = "2021"
publish = false

[dependencies]
bitcoin = "*"
rand = "*"
anyhow = "*"
bitcoind = "*"
clap = { version = "*", features = ["derive"] }
colored = "*"
serde = { version = "*", features = ["derive"] }
toml = "*"
