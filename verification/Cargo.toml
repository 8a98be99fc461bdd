[package]
name = "chachapoly"
version = "0.1.0"
edition = "2021"
publish = false

[dependencies]
chacha20 = "0.9"
poly1305 = "0.8"
