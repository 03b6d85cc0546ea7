[package]
name = "mozlz4"
version = "0.1.0"
edition = "2021"
publish = false

[dependencies]
byteorder = "1"
error-chain = { version = "0.12", default-features = false }
lz4_flex = { version = "*", default-features = false, features = ["safe-encode", "safe-decode", "std"] }
mozlz4-sys = "*"
