[package]
name = "webcam_colorspace"
version = "0.1.0"
edition = "2021"
publish = false

[dependencies]
anyhow = "*"
v4l = "*"
