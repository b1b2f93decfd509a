[package]
name = "clang_wrapper"
version = "0.1.0"
edition = "2021"
publish = false

[dependencies]
anyhow = "1"
clang-sys = { version = "1", features = ["runtime"] }
