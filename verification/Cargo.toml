[package]
name = "my_psp22"
version = "0.1.0"
edition = "2021"
publish = false

[dependencies]
ink = "=4.3.0"
parity-scale-codec = "=3.7.5"
