[package]
name = "raster"
version = "0.1.0"
edition = "2021"
publish = false

[dependencies]
gl = "*"
glfw = "*"
image = { version = "*", default-features = false, features = ["png"] }
ron = "*"
serde = { version = "*", features = ["derive"] }
