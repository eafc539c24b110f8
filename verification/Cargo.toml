[package]
name = "groth16_mpc"
version = "0.1.0"
edition = "2021"
publish = false

[dependencies]
bls12_381 = "*"
