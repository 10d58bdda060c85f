[package]
name = "pydors"
version = "0.1.0"
edition = "2021"
publish = false

[dependencies]
json = "0.12.4"
tui = "0.19"
crossterm = "0.25"
