[package]
name = "tuicore"
version = "0.1.0"
edition = "2021"
publish = false

[dependencies]
tui = { version = "*", default-features = false }
