[package]
name = "linepatch"
version = "0.1.0"
edition = "2021"
publish = false

[dependencies]
regex = "1"
globset = "0.4"
ignore = "0.4"
