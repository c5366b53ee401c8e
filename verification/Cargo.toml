[package]
name = "megumin"
version = "0.1.0"
edition = "2021"
publish = false

[dependencies]
glium = "0.32"
image = { version = "0.22", default-features = false, features = ["tga"] }
rand = "=0.3.23"
