[package]
name = "cache_map"
version = "0.1.0"
edition = "2021"
publish = false

[dependencies]
dashmap = { version = "6.1.0", features = ["rayon"] }
rayon = "1"
rand = { version = "0.8", features = ["small_rng"] }
