[package]
name = "splore"
version = "0.1.0"
edition = "2021"
publish = false

[dependencies]
texture_packer = "=0.30.0"
image = { version = "=0.25.10", default-features = false, features = ["png", "jpeg", "gif", "bmp", "tga"] }
serde_json = "=1.0.154"
clap = "=2.34.0"
nalgebra = "=0.35.0"
glium = "=0.36.0"
