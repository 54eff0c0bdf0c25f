[package]
name = "brightness"
version = "0.1.0"
edition = "2021"
publish = false

[dependencies]
async-trait = "*"
blocking = "*"
futures = "*"
zbus = "*"
