[package]
name = "simple_messaging"
version = "0.1.0"
edition = "2021"
publish = false

[dependencies]
num-bigint = "*"
clap = { version = "*", features = ["derive"] }
