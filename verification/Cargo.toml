[package]
name = "erlang_rt"
version = "0.1.0"
edition = "2021"
publish = false

[dependencies]
num = "0.4"
lazy_static = "1.4"
