[package]
name = "maxstable"
version = "0.1.0"
edition = "2021"
publish = false

[dependencies]
libm = "0.2"
nalgebra = "0.33"
ndarray = "0.16"
numpy = "0.22"
pyo3 = { version = "0.22", features = ["extension-module"] }
rand = "0.8"
rand_distr = "0.4"
