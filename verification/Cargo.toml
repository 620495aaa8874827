[package]
name = "xrwrangle"
version = "0.1.0"
edition = "2021"
publish = false

[dependencies]
clang = { version = "=2.1.0", features = ["runtime", "clang_10_0"] }
