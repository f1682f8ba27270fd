[package]
name = "am2302"
version = "0.1.0"
edition = "2021"
publish = false

[dependencies]
gpio-cdev = "*"
tiny_http = "*"
