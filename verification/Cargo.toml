[package]
name = "linked_vec"
version = "0.1.0"
edition = "2021"
publish = false

[dependencies]
nonmax = "*"

[dev-dependencies]
rand_xoshiro = "*"
