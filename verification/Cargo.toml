[package]
name = "bloom_wnn"
version = "0.1.0"
edition = "2021"
publish = false

[dependencies]
hdf5 = "0.8"
image = { version = "0.24", default-features = false, features = ["png", "jpeg"] }
ndarray = "0.15"
