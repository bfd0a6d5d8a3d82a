[package]
name = "mono_slam"
version = "0.1.0"
edition = "2021"
publish = false

[dependencies]
csv = "1"
nalgebra = "0.32"
opencv = "*"
