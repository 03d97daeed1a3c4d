[package]
name = "fluid_gpu"
version = "0.1.0"
edition = "2021"
publish = false

[dependencies]
anyhow = "*"
bytemuck = "*"
glow = "*"
sdl2 = "*"
