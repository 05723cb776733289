[package]
name = "rmesg"
version = "1.0.0"
edition = "2021"
publish = false

[dependencies]
lazy_static = "1.4"
libc = "0.2"
nonblock = "*"
regex = "1"
