[package]
name = "test_accounting"
version = "0.1.0"
edition = "2021"
publish = false

[dependencies]
clap = "*"
crossbeam-channel = "*"
csv = "*"
decimal-rs = "*"
eyre = "*"
serde = { version = "*", features = ["derive"] }

[dev-dependencies]
crossbeam-utils = "*"
