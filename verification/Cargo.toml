[package]
name = "cargo-bay"
version = "0.2.0"
edition = "2021"
publish = false

[dependencies]
crossterm = "0.28"
portside = "*"
ratatui = "0.29"
