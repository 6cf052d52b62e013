[package]
name = "modhost"
version = "0.1.0"
edition = "2021"
publish = false

[dependencies]
wasmtime = "=48.0.5"
