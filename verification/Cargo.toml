[package]
name = "rcsv"
version = "0.1.0"
edition = "2021"
publish = false

[dependencies]
clap = { version = "4", features = ["derive"] }
colored = "*"
csv = "1"
env_logger = "*"
log = "0.4"
unicode-width = "*"
