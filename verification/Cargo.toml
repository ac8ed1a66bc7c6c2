[package]
name = "iced_aksel"
version = "0.1.0"
edition = "2021"
publish = false

[dependencies]
lru = "*"
iced_core = "*"
iced_graphics = { version = "*", default-features = false }
