[package]
name = "tl_schema"
version = "0.1.0"
edition = "2021"
publish = false

[dependencies]
itertools = "*"
nom = "7"
