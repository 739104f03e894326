[package]
name = "can_pattern"
version = "0.1.0"
edition = "2021"
publish = false

[dependencies]
im-rc = "15.1"
