[package]
name = "ledger_core"
version = "0.1.0"
edition = "2021"
publish = false

[dependencies]
rust_decimal = { version = "1", features = ["serde-with-str"] }
nohash-hasher = "0.2"
serde = { version = "1", features = ["derive"] }
csv = "1"
clap = "3"
