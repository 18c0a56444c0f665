[package]
name = "gif2asm"
version = "0.1.0"
edition = "2021"
publish = false

[dependencies]
gif = "0.13"
clap = { version = "4", features = ["derive"] }
