[package]
name = "schoolthings"
version = "0.1.0"
edition = "2021"
publish = false

[dependencies]
ammonia = "*"
bcrypt = "*"
percent-encoding = "*"
validator = "*"
