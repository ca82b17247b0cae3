[package]
name = "blokus"
version = "0.1.0"
edition = "2021"
publish = false

[dependencies]
rand = { version = "0.8", features = ["small_rng"] }
xml-rs = "0.8"
argparse = "0.2"
