[package]
name = "smil_animation"
version = "0.1.0"
edition = "2021"
publish = false

[dependencies]
roxmltree = "*"
flate2 = "*"
kurbo = "*"
svgtypes = "*"
tiny-skia = "*"
tiny-skia-path = "*"
