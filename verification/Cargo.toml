[package]
name = "gruff_plot"
version = "0.1.0"
edition = "2021"
publish = false

[dependencies]
unicode-segmentation = "1"
raylib = "5"
