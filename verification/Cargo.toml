[package]
name = "jet"
version = "0.1.0"
edition = "2021"
publish = false

[dependencies]
jet-proto-math = "*"
bytemuck = "*"
anchor-lang = "*"
