[package]
name = "splat_engine"
version = "0.1.0"
edition = "2021"
publish = false

[dependencies]
sdl2 = "*"
wgpu = "*"
async-std = "*"
bytemuck = "*"
flume = "*"
image = "*"
mshio = "*"
