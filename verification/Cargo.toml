[package]
name = "glass"
version = "0.1.0"
edition = "2021"
publish = false

[dependencies]
byte_string = "1"
