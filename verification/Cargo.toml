[package]
name = "flocking"
version = "0.1.0"
edition = "2021"
publish = false

[dependencies]
rand = "0.9"
threadpool = "1"
num_cpus = "1"
