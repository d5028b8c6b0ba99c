[package]
name = "browser_window"
version = "0.1.0"
edition = "2021"
publish = false

[dependencies]
json = "0.12"
num-bigfloat = "1"
futures-channel = "0.3"
