[package]
name = "pxl"
version = "0.1.0"
edition = "2021"
publish = false

[dependencies]
gl = "=0.14.0"
glutin = "=0.29.1"
cpal = "=0.18.2"
rustfft = "=6.4.1"
image = "=0.25.10"
proc-macro2 = "=1.0.107"
quote = "=1.0.47"
