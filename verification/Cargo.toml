[package]
name = "slightly_artefactual_raytracer"
version = "0.2.0"
edition = "2021"
publish = false

[dependencies]
image = { version = "*", default-features = false, features = ["png"] }
rayon = "*"
indicatif = "*"
