[package]
name = "bls12_381_g1"
version = "0.1.0"
edition = "2021"
publish = false

[dependencies]
ark-ec = "*"
ark-ff = "*"

[dev-dependencies]
ark-std = "*"
