[package]
name = "iced_plot"
version = "0.1.0"
edition = "2021"
publish = false

[dependencies]
iced = { version = "=0.14.0", default-features = false, features = ["x11", "thread-pool", "tiny-skia"] }
glam = "=0.34.2"
bytemuck = "=1.25.2"
