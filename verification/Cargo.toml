[package]
name = "tunnel_switch"
version = "0.1.0"
edition = "2021"
publish = false

[dependencies]
clap = { version = "4", features = ["derive"] }
nix = { version = "*", features = ["ioctl"] }
