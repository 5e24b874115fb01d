[package]
name = "anup"
version = "0.1.0"
edition = "2021"
publish = false

[dependencies]
base64 = "0.13"
strsim = "0.10"
regex = "1"
chrono = "0.4"
pico-args = "*"
