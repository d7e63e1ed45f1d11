[package]
name = "fixed_timestep"
version = "0.1.0"
edition = "2021"
publish = false

[dependencies]
sdl2 = { version = "*", default-features = false, features = ["ttf"] }
