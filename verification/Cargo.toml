[package]
name = "chip8"
version = "1.0.0"
edition = "2021"
publish = false

[dependencies]
byteorder = "1"
rand = "0.8"
clap = { version = "4", features = ["derive"] }
sdl2 = "0.37"
