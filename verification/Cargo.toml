[package]
name = "chain_node"
version = "0.1.0"
edition = "2021"
publish = false

[dependencies]
hex = "0.4"
rand = "0.8"
tokio = { version = "1", features = ["rt-multi-thread", "net", "sync", "time", "macros", "io-util"] }
