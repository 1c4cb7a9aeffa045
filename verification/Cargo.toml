[package]
name = "stegosaur_rs"
version = "0.1.0"
edition = "2021"
publish = false

[dependencies]
image = "0.25"
clap = { version = "4", features = ["derive"] }
