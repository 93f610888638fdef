[package]
name = "glv"
version = "0.1.0"
edition = "2021"
publish = false

[dependencies]
ark-bls12-381 = "0.3"
ark-bn254 = "0.3"
ark-ec = "0.3"
ark-ff = "0.3"
ark-std = "0.3"
num-bigint = "0.4"
wasm-bindgen = "0.2"
