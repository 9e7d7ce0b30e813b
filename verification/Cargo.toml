[package]
name = "funns_bot"
version = "0.1.0"
edition = "2021"
publish = false

[dependencies]
chess = "*"
murmur3 = "*"
