[package]
name = "greetcard"
version = "0.1.0"
edition = "2021"
publish = false

[dependencies]
mpris = "*"

[dev-dependencies]
owo-colors = "*"
