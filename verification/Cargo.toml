[package]
name = "imghash"
version = "0.1.0"
edition = "2021"
publish = false

[dependencies]
clap = "=2.34.0"
custom_derive = "=0.1.7"
enum_derive = "=0.1.7"
image = "=0.23.14"

[dev-dependencies]
img_hash = "=3.2.0"
