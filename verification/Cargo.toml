[package]
name = "sim800"
version = "0.1.0"
edition = "2021"
publish = false

[dependencies]
heapless = "0.8"
embedded-hal = "0.2"
nb = "1"
