[package]
name = "opengl_test"
version = "0.1.0"
edition = "2021"
publish = false

[dependencies]
gl = "0.14"
glm = "0.2"
