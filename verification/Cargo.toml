[package]
name = "tapestry"
version = "0.1.0"
edition = "2021"
publish = false

[dependencies]
comfy-table = { version = "*", default-features = false }
minijinja = "*"
toml = "*"
