[package]
name = "spirt_print"
version = "0.1.0"
edition = "2021"
publish = false

[dependencies]
itertools = "0.10"
rustc-hash = "1"
smallvec = "1"
