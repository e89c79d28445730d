[package]
name = "promptline"
version = "0.1.0"
edition = "2021"
publish = false

[dependencies]
unicode-segmentation = "*"
clap = { version = "*", features = ["derive"] }
git2 = { version = "*", default-features = false }
