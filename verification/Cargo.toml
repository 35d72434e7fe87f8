[package]
name = "geosphere"
version = "0.1.0"
edition = "2021"
publish = false

[dependencies]
glam = "*"
integer-sqrt = "0.1"
