[package]
name = "pinny"
version = "0.1.0"
edition = "2021"
publish = false

[dependencies]
proc-macro2 = "=1.0.107"
quote = "=1.0.47"
regex = "=1.13.1"
syn = { version = "=2.0.119", features = ["full"] }
toml = "=0.8.23"
