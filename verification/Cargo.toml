[package]
name = "k21_node"
version = "0.1.0"
edition = "2021"
publish = false

[dependencies]
napi = { version = "2", features = ["async"] }
napi-derive = "2"
