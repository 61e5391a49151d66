[package]
name = "alloc_rhythm"
version = "0.1.0"
edition = "2021"
publish = false

[dependencies]
alloc_geiger = "*"
