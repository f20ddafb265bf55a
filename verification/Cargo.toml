[package]
name = "poseidon2_gate"
version = "0.1.0"
edition = "2021"
publish = false

[dependencies]
plonky2 = "=0.2.2"

[dev-dependencies]
zkhash = "=0.2.0"
