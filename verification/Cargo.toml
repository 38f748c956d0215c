[package]
name = "sleuth"
version = "0.1.0"
edition = "2021"
publish = false

[dependencies]
iced = { version = "=0.14.0", default-features = false, features = ["tiny-skia", "x11", "thread-pool"] }
time = "=0.3.55"
words-to-data = "=0.3.0"
