[package]
name = "pal"
version = "0.1.0"
edition = "2021"
publish = false

[dependencies]
bincode = "2"
chardetng = "0.1"
encoding_rs = "0.8"
minifb = "*"
rand = "0.8"
sdl2 = { version = "*", features = ["mixer"] }
