[package]
name = "private_ipv6"
version = "0.1.0"
edition = "2021"
publish = false

[dependencies]
rand = "*"
