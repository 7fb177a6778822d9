[package]
name = "cheqd_ledger"
version = "0.1.0"
edition = "2021"
publish = false

[dependencies]
cosmrs = "*"
k256 = { version = "*", features = ["ecdsa", "sha256"] }
rust-base58 = "*"
sha2 = "*"
serde = { version = "*", features = ["derive"] }
serde_json = "*"
futures = { version = "*", features = ["thread-pool"] }
num_cpus = "*"
libc = "*"
log = "*"
