[package]
name = "iocraft"
version = "0.1.0"
edition = "2021"
publish = false

[dependencies]
crossterm = "0.29"
futures = "0.3"
taffy = "0.9"
unicode-bidi = "0.3"
unicode-segmentation = "1"
unicode-width = "0.2"
