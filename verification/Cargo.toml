[package]
name = "julia_render"
version = "0.1.0"
edition = "2021"
publish = false

[dependencies]
rayon = "1"
indicatif = "0.17"
