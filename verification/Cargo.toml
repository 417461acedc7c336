[package]
name = "beany"
version = "0.1.0"
edition = "2021"
publish = false

[dependencies]
parking_lot = "*"
tokio = { version = "*", default-features = false, features = ["sync"] }
