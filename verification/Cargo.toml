[package]
name = "lssaid"
version = "0.1.0"
edition = "2021"
publish = false

[dependencies]
serde_json = "*"
strip-ansi-escapes = "*"
unicode-segmentation = "*"
clap = "*"
reqwest = { version = "*", default-features = false, features = ["blocking"] }
