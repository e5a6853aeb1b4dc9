[package]
name = "fuel-indexer-lib"
version = "0.1.0"
edition = "2021"
publish = false

[dependencies]
async-graphql-parser = "=5.0.10"
sha2 = "=0.10.9"
thiserror = "1"
serde = { version = "1", features = ["derive"] }
serde_json = "1"
proc-macro2 = "1"
quote = "1"
fuel-tx = { version = "=0.26.3", features = ["serde"] }
