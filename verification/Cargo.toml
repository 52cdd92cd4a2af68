[package]
name = "resman"
version = "0.1.0"
edition = "2021"
publish = false

[dependencies]
tynm = "*"
downcast-rs = "*"
