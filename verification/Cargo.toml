[package]
name = "protostar"
version = "0.1.0"
edition = "2021"
publish = false

[dependencies]
ff = "0.13"
group = "0.13"
halo2curves = "*"
rand_core = "0.6"
rayon = "1"
blake2b_simd = "1"
