[package]
name = "intspector"
version = "0.1.0"
edition = "2021"
publish = false

[dependencies]
arguably = "*"
term_size = "*"
