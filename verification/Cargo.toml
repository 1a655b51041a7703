[package]
name = "lnpbp"
version = "0.1.0"
edition = "2021"
publish = false

[dependencies]
bitcoin = "0.23"
miniscript = { version = "1.0", features = ["compiler"] }
