[package]
name = "relayx"
version = "0.1.0"
edition = "2021"
publish = false

[dependencies]
tabled = "*"
colored = "*"
indicatif = "*"
