[package]
name = "dcfr"
version = "0.1.0"
edition = "2021"
publish = false

[dependencies]
rand = "=0.7.3"
crossbeam-channel = "=0.5.17"
sled = "=0.34.7"
