[package]
name = "wordle"
version = "0.1.0"
edition = "2021"
publish = false

[dependencies]
rand = "0.8"
crossterm = "0.25"
tui = "0.19"
