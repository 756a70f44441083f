[package]
name = "cleese"
version = "0.1.0"
edition = "2021"
publish = false

[dependencies]
regex = "*"
time = "*"
rand = "*"
getopts = "*"
serde_json = "*"
