[package]
name = "tm20"
version = "0.1.0"
edition = "2021"
publish = false

[dependencies]
fontdue = "=0.9.5"
harfrust = "=0.4.1"
nusb = "=0.2.9"
serialport = { version = "=4.10.1", default-features = false }
