[package]
name = "i1d"
version = "0.1.0"
edition = "2021"
publish = false

[dependencies]
rayon = "*"
pyo3 = { version = "*", features = ["extension-module"] }
