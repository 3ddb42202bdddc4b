[package]
name = "mack7"
version = "0.1.0"
edition = "2021"
publish = false

[dependencies]
clap = "3"
rayon = "1"
