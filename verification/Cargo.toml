[package]
name = "authority"
version = "0.1.0"
edition = "2021"
publish = false

[dependencies]
bcrypt = "*"
rand = "0.8"
lapin = "*"
futures = "0.3"
