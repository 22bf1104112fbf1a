[package]
name = "isoad16a_a4"
version = "0.1.0"
edition = "2021"

[dependencies]
serialport = { version = "3.3", default-features = false }
