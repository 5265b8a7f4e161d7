[package]
name = "guikit"
version = "0.1.0"
edition = "2021"
publish = false

[dependencies]
cgmath = "=0.17.0"
clipboard = "=0.5.0"
glium = "0.27"
image = "=0.22.5"
winit = "=0.22.2"
