[package]
name = "torus_proj"
version = "0.1.0"
edition = "2021"
publish = false

[dependencies]
fixed = "*"
cordic = "*"
clap = { version = "*", features = ["derive"] }
image = "*"
rayon = "*"
