[package]
name = "rust_calculator"
version = "0.1.0"
edition = "2021"
publish = false

[dependencies]
directories = "=5.0.1"
iced = { version = "=0.9.0", default-features = false, features = ["glow"] }
lazy_static = "=1.5.1"
rustyline = "=12.0.0"
