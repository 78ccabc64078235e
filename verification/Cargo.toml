[package]
name = "element"
version = "0.1.0"
edition = "2021"
publish = false

[dependencies]
anyhow = "1"
smallvec = "1"
