[package]
name = "magolor_compiler"
version = "0.1.0"
edition = "2021"
publish = false

[dependencies]
anyhow = "=1.0.104"
inkwell = { version = "=0.5.0", features = ["llvm14-0-no-llvm-linking"] }
