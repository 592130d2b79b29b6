[package]
name = "app_launcher"
version = "0.1.0"
edition = "2021"
publish = false

[dependencies]
xdg = "=3.0.0"
