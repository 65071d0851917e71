[package]
name = "ct3d"
version = "0.1.0"
edition = "2021"
publish = false

[dependencies]
glam = "*"
noise = "*"
ocl = "*"
sdl2 = "*"
subprocess = "*"
