[package]
name = "fixed_rate"
version = "0.1.0"
edition = "2021"
publish = false

[dependencies]
quinn-proto = { version = "*", default-features = false }
