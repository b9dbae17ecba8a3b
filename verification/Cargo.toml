[package]
name = "harsark"
version = "0.3.4"
edition = "2021"
publish = false

[dependencies]
cortex-m = "0.7"
cortex-m-rt = "0.7"
