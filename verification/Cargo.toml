[package]
name = "scanhist"
version = "0.1.0"
edition = "2021"
publish = false

[dependencies]
hdrhistogram = "=7.5.4"
image = "=0.25.10"
text-colorizer = "*"
