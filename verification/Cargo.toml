[package]
name = "tx_ledger"
version = "0.1.0"
edition = "2021"
publish = false

[dependencies]
clap = { version = "4", features = ["derive"] }
csv = "1"
env_logger = "*"
log = "0.4"
serde = { version = "1", features = ["derive"] }
thiserror = "1"
