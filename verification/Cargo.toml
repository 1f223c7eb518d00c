[package]
name = "sabitori"
version = "0.4.0"
edition = "2021"
publish = false

[dependencies]
image = { version = "0.25", default-features = false, features = ["png"] }
winit = "0.30"
arboard = "3"
pollster = "0.4"
serde_json = "1"
