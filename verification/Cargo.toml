[package]
name = "zakura_arith"
version = "0.1.0"
edition = "2021"
publish = false

[dependencies]
ff = "*"
group = "*"
incrementalmerkletree = "*"
indexmap = "*"
jubjub = "*"
lazy_static = "*"
maybe-rayon = "*"
rand = "*"
rand_core = "*"
serde = { version = "*", features = ["derive"] }
subtle = "*"
