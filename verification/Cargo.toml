[package]
name = "marla"
version = "0.1.0"
edition = "2021"
publish = false

[dependencies]
either = "1"
futures = "0.3"
hyper = { version = "0.14", features = ["full"] }
macro_rules_attribute = "0.1"
regex = "1"
tokio = { version = "1", features = ["full"] }
uuid = { version = "1", features = ["v4"] }
