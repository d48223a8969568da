[package]
name = "python3_cmd"
version = "0.1.0"
edition = "2021"
publish = false

[dependencies]
anyhow = "1"
