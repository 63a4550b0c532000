[package]
name = "speedy_fields"
version = "0.1.0"
edition = "2021"
publish = false

[dependencies]
ark-bn254 = "*"
ark-ff = "*"
ark-std = { version = "*", features = ["std"] }
halo2curves = "*"
metal = "*"
objc = "*"
rand = "0.8"

[dev-dependencies]
num-bigint = "*"
