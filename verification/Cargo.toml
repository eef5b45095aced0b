[package]
name = "ps3bdtool"
version = "0.1.0"
edition = "2021"
publish = false

[dependencies]
rust-crypto = "*"
flate2 = "*"
hex = "*"
bytesize = "*"
xdg = "*"
clap = "*"
nix = { version = "*", features = ["fs"] }
