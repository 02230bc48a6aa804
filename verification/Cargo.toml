[package]
name = "demclean"
version = "0.1.0"
edition = "2021"
publish = false

[dependencies]
anyhow = "1"
chrono = "0.4"
colored = "2"
inquire = "*"
once_cell = "1"
regex = "1"
