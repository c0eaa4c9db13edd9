[package]
name = "broadcast_ring"
version = "0.1.0"
edition = "2021"
publish = false

[dependencies]
lock_api = "=0.3.4"
nix = { version = "=0.31.3", default-features = false }
