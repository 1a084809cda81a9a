[package]
name = "aurora"
version = "0.1.0"
edition = "2021"
publish = false

[dependencies]
glam = "0.29"
indicatif = "0.17"
rand = "0.8"
rayon = "1"
