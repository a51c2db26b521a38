[package]
name = "uring_detect"
version = "0.1.0"
edition = "2021"
publish = false

[dependencies]
libc = "*"
nix = { version = "*", features = ["feature"] }
io-uring = "*"
