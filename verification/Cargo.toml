[package]
name = "fuchsian"
version = "0.1.0"
edition = "2021"

[dependencies]
num-complex = "0.4"
rand = "0.8"
pyo3 = { version = "0.20", features = ["extension-module"] }
