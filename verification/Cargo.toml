[package]
name = "aggregator"
version = "0.1.0"
edition = "2021"
publish = false

[dependencies]
strsim = "*"
serde = { version = "*", features = ["derive"] }
serde_json = "*"
toml = "*"
clap = { version = "*", features = ["derive"] }
crossbeam-channel = "*"
tantivy = "*"
tempfile = "*"

[dev-dependencies]
