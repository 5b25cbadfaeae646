[package]
name = "raytracer_ramel"
version = "0.1.0"
edition = "2021"
publish = false

[dependencies]
rand = "0.9"
rayon = "1"
tobj = "*"
image = "*"
indicatif = "*"
console = "*"
