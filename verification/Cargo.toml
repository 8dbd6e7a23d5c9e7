[package]
name = "cmakefmt"
version = "0.1.0"
edition = "2021"
publish = false

[dependencies]
pretty = "0.12"
nom = "7"
nom-supreme = "0.8"
clap = { version = "4", features = ["cargo"] }
colored = "2"
