[package]
name = "gba_env"
version = "0.1.0"
edition = "2021"
publish = false

[dependencies]
agb = "0.21"
