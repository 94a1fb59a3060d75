[package]
name = "green_sphere"
version = "0.1.0"
edition = "2021"
publish = false

[dependencies]
rand = "0.9"
serde_json = "1"
ehttp = "0.5"
