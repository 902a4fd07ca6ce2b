[package]
name = "pmd-core"
version = "0.1.0"
edition = "2021"
publish = false

[dependencies]
encoding_rs = "0.8"
libm = "0.2"
