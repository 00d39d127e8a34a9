[package]
name = "mongoquery"
version = "0.1.0"
edition = "2021"
publish = false

[dependencies]
serde_json = "*"
thiserror = "*"
async-trait = "*"
async-recursion = "*"
