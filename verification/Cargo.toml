[package]
name = "algebra-kernels"
version = "0.1.0"
edition = "2021"
publish = false

[dependencies]
itertools = "=0.10.5"
log = "=0.4.34"
thiserror = "=1.0.69"
lazy_mut = "=0.1.0"
rust-gpu-tools = "=0.7.2"
