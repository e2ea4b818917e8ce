[package]
name = "bwb"
version = "0.1.0"
edition = "2021"
publish = false

[dependencies]
itertools = "*"
rand = "0.4"
rayon = "*"
sdl2 = { version = "*", features = ["ttf"] }
