[package]
name = "three_d_rendering"
version = "0.1.0"
edition = "2021"
publish = false

[dependencies]
fastnoise-lite = "*"
minifb = "*"
mouse-rs = "*"
nalgebra-glm = "*"
tobj = "*"
