[package]
name = "arcus"
version = "0.2.0"
edition = "2021"
publish = false

[dependencies]
ansi_term = "*"
clap = "*"
unicode-segmentation = "*"

[dev-dependencies]
hex = "*"
