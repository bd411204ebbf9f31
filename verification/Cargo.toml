[package]
name = "nbody"
version = "0.1.0"
edition = "2021"
publish = false

[dependencies]
ndarray = { version = "=0.15.6", features = ["rayon"] }
itertools = "=0.10.5"
rand = "=0.8.8"
rayon = "=1.12.0"
nannou = "=0.19.0"
