[package]
name = "exp_circuit"
version = "0.1.0"
edition = "2021"

[dependencies]
halo2_proofs = "0.2"
