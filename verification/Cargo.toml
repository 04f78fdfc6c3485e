[package]
name = "pond"
version = "0.3.0"
edition = "2021"
publish = false

[dependencies]
num_cpus = "1"
