[package]
name = "nltui"
version = "0.1.0"
edition = "2021"
publish = false

[dependencies]
failure = "0.1"
termion = "1.5"
tui = "0.6"
unicode-width = "0.1"
