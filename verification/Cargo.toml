[package]
name = "system"
version = "0.1.0"
edition = "2021"
publish = false

[dependencies]
libc = "0.2"
log = "0.4"
nix = { version = "0.26", default-features = false }
regex = "1"
