[package]
name = "gradient_hex"
version = "0.1.0"
edition = "2021"
publish = false

[dependencies]
anyhow = "1"
opencv = { version = "*", default-features = false, features = ["imgcodecs", "imgproc"] }
