[package]
name = "prepare_inputs"
version = "0.1.0"
edition = "2021"
publish = false

[dependencies]
ark-ff = "0.3"
ark-ec = "0.3"
ark-bn254 = "0.3"

[dev-dependencies]
ark-ed-on-bn254 = "0.3"
ark-std = "0.3"
