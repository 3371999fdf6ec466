[package]
name = "rasterscope"
version = "0.1.0"
edition = "2021"
publish = false

[dependencies]
crossbeam = "*"
byteorder = "*"
png = "*"
linuxfb = "*"
