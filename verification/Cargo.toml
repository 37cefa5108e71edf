[package]
name = "aiscript_vm"
version = "0.1.0"
edition = "2021"

[dependencies]
ahash = "0.8"
gc-arena = "0.5"
serde_json = "1"
