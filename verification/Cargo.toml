[package]
name = "eipv"
version = "0.1.0"
edition = "2021"
publish = false

[dependencies]
url = "2"
chrono = "0.4"
regex = "1"
clap = "4"
