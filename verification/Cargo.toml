[package]
name = "partman"
version = "0.1.0"
edition = "2021"
publish = false

[dependencies]
gpt-parser = "*"
mbrs = "0.3"
log = "0.4"
