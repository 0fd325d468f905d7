[package]
name = "bearer_challenge"
version = "0.1.0"
edition = "2021"
publish = false

[dependencies]
http = "*"
warp = { version = "*", default-features = false }
