[package]
name = "abstreet_ui"
version = "0.1.0"
edition = "2021"
publish = false

[dependencies]
instant = "0.1"
