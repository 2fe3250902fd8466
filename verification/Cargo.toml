[package]
name = "shell_engine"
version = "0.1.0"
edition = "2021"
publish = false

[dependencies]
nix = "0.26"
