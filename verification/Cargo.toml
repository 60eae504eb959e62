[package]
name = "frozen_map"
version = "0.1.0"
edition = "2021"
publish = false

[dependencies]
ph = { version = "=0.11.0", default-features = false, features = ["cseq"] }
bitvec = "=1.1.1"
arc-swap = "=1.9.3"

[dev-dependencies]
rayon = "=1.12.0"
