[package]
name = "bitvec"
version = "0.1.0"
edition = "2021"
publish = false

[dependencies]
tap = "1"
