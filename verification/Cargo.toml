[package]
name = "rescomp"
version = "0.1.0"
edition = "2021"
publish = false

[dependencies]
nalgebra = "0.31"
nalgebra-sparse = "0.7"
num-traits = "0.2"
rand = "0.8"
blas-sys = "0.7"
