[package]
name = "xtop"
version = "0.1.0"
edition = "2021"
publish = false

[dependencies]
crossterm = "0.29"
ratatui = "0.30"
sysinfo = "=0.39.6"
