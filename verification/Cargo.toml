[package]
name = "infotype_matcher"
version = "0.1.0"
edition = "2021"
publish = false

[dependencies]
regex = "1"
fake = "*"
