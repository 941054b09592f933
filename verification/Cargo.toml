[package]
name = "ronat"
version = "0.1.0"
edition = "2021"
publish = false

[dependencies]
docstrings = "=0.1.1"
ispell = "=0.3.1"
markdown = "=0.3.0"
