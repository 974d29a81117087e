[package]
name = "quictrans"
version = "0.1.0"
edition = "2021"
publish = false

[dependencies]
sfv = "*"
env_logger = "*"
