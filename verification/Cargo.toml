[package]
name = "editor_core"
version = "0.1.0"
edition = "2021"
publish = false

[dependencies]
ropey = { version = "*", default-features = false, features = ["cr_lines"] }
sdl2 = { version = "*", features = ["ttf"] }
