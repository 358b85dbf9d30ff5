[package]
name = "gl_harness"
version = "0.1.0"
edition = "2021"
publish = false

[dependencies]
glium = "0.36"
glutin = "0.32"
glutin-winit = "0.5"
raw-window-handle = "0.6"
winit = "0.30"
