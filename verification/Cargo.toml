[package]
name = "pixel_buffer"
version = "0.1.0"
edition = "2021"
publish = false

[dependencies]
rayon = "1"
x11-dl = "2"
raw-window-handle = "0.3"
once_cell = "1"
