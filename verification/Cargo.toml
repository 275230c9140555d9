[package]
name = "discovery"
version = "0.1.0"
edition = "2021"
publish = false

[dependencies]
rand = "=0.9.5"
oxc = { version = "=0.139.0", features = ["semantic", "codegen"] }
oxc_traverse = "=0.139.0"
