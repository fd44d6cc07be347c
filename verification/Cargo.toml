[package]
name = "simd_aligned"
version = "0.1.0"
edition = "2021"
publish = false

[dependencies]
wide = "*"
