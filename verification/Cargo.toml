[package]
name = "leac"
version = "0.1.0"
edition = "2021"
publish = false

[dependencies]
bytes = "=1.12.1"
colored = "=3.1.1"
