[package]
name = "block_verification"
version = "0.1.0"
edition = "2021"
publish = false

[dependencies]
tree_hash = "*"
