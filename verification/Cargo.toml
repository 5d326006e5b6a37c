[package]
name = "clib"
version = "0.2.0"
edition = "2021"
publish = false

[dependencies]
toml = "0.5"
pkg-config = "0.3"
bindgen = "0.69"
