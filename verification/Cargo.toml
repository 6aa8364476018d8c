[package]
name = "fluxhead"
version = "0.1.0"
edition = "2021"
publish = false

[dependencies]
cbm-dos = "*"
endian_codec = "=0.1.1"
