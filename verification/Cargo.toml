[package]
name = "clawasm"
version = "0.5.0"
edition = "2021"
publish = false

[dependencies]
anyhow = "1"
godot = "*"
