[package]
name = "guillotine"
version = "0.1.0"
edition = "2021"
publish = false

[dependencies]
embedded-graphics = "0.8"
heapless = "0.9"
thiserror = { version = "2", default-features = false }
