[package]
name = "grm"
version = "0.1.0"
edition = "2021"
publish = false

[dependencies]
bytecount = "*"
clap = { version = "*", features = ["derive"] }
crossterm = "*"
