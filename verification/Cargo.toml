[package]
name = "wayland_utils"
version = "0.1.0"
edition = "2021"
publish = false

[dependencies]
camino = "*"
etcetera = "*"
execute = "*"
home = "*"
lazy_static = "*"
once_cell = "*"
pest = "*"
pest_derive = "*"
ron = "*"
serde = { version = "*", features = ["derive"] }
serde_json = "*"
toml = "*"
walkdir = "*"
