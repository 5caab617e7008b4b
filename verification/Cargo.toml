[package]
name = "ansi_tokens"
version = "0.1.0"
edition = "2021"
publish = false

[dependencies]
clap = { version = "4", features = ["derive"] }
freetype-rs = "0.26"
image = "0.23"
rusttype = "0.9"
vte = "0.8"
