[package]
name = "pixelmask"
version = "0.1.0"
edition = "2021"
publish = false

[dependencies]
clap = { version = "4", features = ["derive"] }
crossterm = "0.27"
image = { version = "0.24", default-features = false, features = ["png", "jpeg", "bmp"] }
rand = "0.8"
rand_chacha = "0.3"
