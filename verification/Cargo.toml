[package]
name = "dumb_jump"
version = "0.1.0"
edition = "2021"
publish = false

[dependencies]
itertools = "*"
rayon = "*"
futures = "*"
