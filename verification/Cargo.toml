[package]
name = "course-parser"
version = "0.1.0"
edition = "2021"
publish = false

[dependencies]
tl = "0.7"
eyre = "0.6"
