[package]
name = "raytracer"
version = "0.1.0"
edition = "2021"
publish = false

[dependencies]
indicatif = "*"
rand = "0.8"

[dev-dependencies]
glam = "*"
