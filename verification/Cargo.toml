[package]
name = "ffinder"
version = "0.1.0"
edition = "2021"
publish = false

[dependencies]
regex = "*"
chrono = "*"
walkdir = "*"
clap = "*"
colored = "*"
console = "*"
dialoguer = "*"
indicatif = "*"
