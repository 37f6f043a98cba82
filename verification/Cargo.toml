[package]
name = "vekk"
version = "0.1.0"
edition = "2021"
publish = false

[dependencies]
thin-vec = "=0.2.19"
