[package]
name = "coop_kernel"
version = "0.1.0"
edition = "2021"
publish = false

[dependencies]
spin = "*"
embedded-hal = "0.2"
nb = "0.1"
