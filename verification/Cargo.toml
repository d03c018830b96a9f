[package]
name = "pathtrace"
version = "0.1.0"
edition = "2021"
publish = false

[dependencies]
rand = "*"
rand_xorshift = "*"
rayon = "*"
crossbeam = "*"
indicatif = "*"

[dependencies.image]
version = "*"
default-features = false
features = ["png"]
