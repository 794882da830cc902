[package]
name = "path_integrator"
version = "0.1.0"
edition = "2021"
publish = false

[dependencies]
bumpalo = { version = "3", features = ["collections"] }
rand = { version = "0.8", default-features = false, features = ["small_rng"] }
generic-array = "0.14"
num_cpus = "1"
rayon = "1"
