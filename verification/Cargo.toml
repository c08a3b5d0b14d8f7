[package]
name = "vssh"
version = "0.1.0"
edition = "2021"
publish = false

[dependencies]
ctrlc = "*"
dirs = "*"
nix = { version = "*", features = ["process"] }
