[package]
name = "iota_migration"
version = "0.1.0"
edition = "2021"
publish = false

[dependencies]
bee-crypto = "0.3.0"
bee-signing = "0.2.0"
bee-ternary = "0.5.2"
blake2 = "0.9"
futures = "0.3"
num_cpus = "1"
tokio = { version = "1", features = ["sync", "rt-multi-thread"] }
