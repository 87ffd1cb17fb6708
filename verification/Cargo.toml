[package]
name = "rmx"
version = "0.1.0"
edition = "2021"
publish = false

[dependencies]
clap = { version = "*", features = ["derive"] }
crossbeam-channel = "*"
parking_lot = "*"
rayon = "*"
