[package]
name = "ray_canvas"
version = "0.1.0"
edition = "2021"
publish = false

[dependencies]
glam = "*"
minifb = "*"
rayon = "*"
