[package]
name = "infinite_minesweeper"
version = "0.1.0"
edition = "2021"
publish = false

[dependencies]
cgmath = "0.18"
glium = "0.30"
image = { version = "0.23", default-features = false, features = ["png"] }
itertools = "0.10"
lazy_static = "1.4"
rand = "0.8"
send_wrapper = "0.5"
