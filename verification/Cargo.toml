[package]
name = "simpleaf_quant"
version = "0.1.0"
edition = "2021"
publish = false

[dependencies]
serde_json = "*"
niffler = "*"
clap = { version = "*", features = ["derive"] }
