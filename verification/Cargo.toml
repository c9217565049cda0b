[package]
name = "sluice"
version = "0.1.0"
edition = "2021"
publish = false

[dependencies]
futures-channel = "*"
futures-core = "*"
futures-io = "*"
futures = "*"
