[package]
name = "mlang"
version = "0.1.0"
edition = "2021"
publish = false

[dependencies]
unic-emoji-char = "0.9.0"
inkwell = { version = "0.5", default-features = false, features = ["llvm18-0"] }
