[package]
name = "wellspring"
version = "0.1.0"
edition = "2021"

[dependencies]
rand = "0.7"
ggez = "0.5"
