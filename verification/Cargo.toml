[package]
name = "duck_web_core"
version = "0.1.0"
edition = "2021"
publish = false

[dependencies]
regex = "1"
stringcase = "*"
parking_lot = "0.12"
lazy_static = "1"
syn = { version = "2", features = ["full"] }
quote = "1"
proc-macro2 = "1"
