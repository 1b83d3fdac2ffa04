[package]
name = "memapi"
version = "0.1.0"
edition = "2021"
publish = false

[dependencies]
libmimalloc-sys = "*"
tikv-jemalloc-sys = "*"
