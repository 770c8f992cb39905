[package]
name = "mdsite"
version = "0.1.0"
edition = "2021"
publish = false

[dependencies]
markdown = "*"
log = "*"
simple_logger = "*"
