[package]
name = "algs"
version = "0.1.0"
edition = "2021"
publish = false

[dependencies]
nalgebra = { version = "0.32", default-features = false, features = ["std"] }
rand = { version = "0.8", features = ["small_rng"] }
