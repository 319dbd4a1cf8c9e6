[package]
name = "capsulator"
version = "0.1.0"
edition = "2021"
publish = false

[dependencies]
gtk4 = "*"
gtk4-layer-shell = "*"
vte4 = "*"
