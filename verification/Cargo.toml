[package]
name = "interpreter"
version = "0.1.0"
edition = "2021"
publish = false

[dependencies]
compact_str = "0.8"
