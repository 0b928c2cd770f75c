[package]
name = "bf_machine"
version = "0.1.0"
edition = "2021"
publish = false

[dependencies]
serde_bytes = "0.11"
