[package]
name = "line_monsters"
version = "0.1.0"
edition = "2021"
publish = false

[dependencies]
ultraviolet = "=0.10.0"
