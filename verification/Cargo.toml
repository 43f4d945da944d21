[package]
name = "adventure2d"
version = "0.1.0"
edition = "2021"
publish = false

[dependencies]
sdl3 = "=0.20.0"
sdl3-sys = { version = "=0.7.2", features = ["no-link"] }
