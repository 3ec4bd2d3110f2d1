[package]
name = "frame_loop"
version = "0.1.0"
edition = "2021"
publish = false

[dependencies]
failure = "0.1"
floating-duration = "0.1"
gl = "0.14"
nalgebra = "*"
sdl2 = "*"
