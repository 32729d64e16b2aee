[package]
name = "touch_matrix"
version = "0.1.0"
edition = "2021"
publish = false

[dependencies]
embedded-hal-async = "1"
embassy-sync = "*"
