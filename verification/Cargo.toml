[package]
name = "whiskers"
version = "0.1.0"
edition = "2021"
publish = false

[dependencies]
queues = "=1.1.0"
clap = "=2.34.0"
