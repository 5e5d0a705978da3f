[package]
name = "r1cs_bellman"
version = "0.1.0"
edition = "2021"
publish = false

[dependencies]
bellman = "0.14"
bls12_381 = "0.8"
ff = "0.13"
pairing = "0.23"
r1cs = "*"

[dev-dependencies]
rand = "0.8"
