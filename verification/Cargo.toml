[package]
name = "vrl_core"
version = "0.1.0"
edition = "2021"
publish = false

[dependencies]
async-graphql = "*"
schemars = "0.8"
serde = { version = "1", features = ["derive"] }
serde_with = "*"
