[package]
name = "image_in_terminal"
version = "0.1.0"
edition = "2021"
publish = false

[dependencies]
crossterm = "*"
image = { version = "*", default-features = false, features = ["bmp", "gif", "ico", "jpeg", "png", "pnm", "tga", "tiff", "webp"] }
