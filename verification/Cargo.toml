[package]
name = "living_worlds"
version = "0.1.0"
edition = "2021"
publish = false

[dependencies]
chrono = "0.4"
gl = "0.14"
glutin = "0.29"
json = "0.12"
