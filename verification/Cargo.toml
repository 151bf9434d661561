[package]
name = "meshview"
version = "0.1.0"
edition = "2021"
publish = false

[dependencies]
ply-rs = "0.1"
linked-hash-map = "0.5"
cgmath = "0.18"
glium = "0.25"
