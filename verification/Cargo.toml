[package]
name = "hello_pi"
version = "0.1.0"
edition = "2021"
publish = false

[dependencies]
libc = "*"
serde_json = "*"
url = "*"
hyper = "0.10"
