[package]
name = "xparse"
version = "0.1.0"
edition = "2021"
publish = false

[dependencies]
arrayref = "0.3"
