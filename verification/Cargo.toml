[package]
name = "pager_core"
version = "0.1.0"
edition = "2021"
publish = false

[dependencies]
ropey = "1.6"
termion = "1.5"
