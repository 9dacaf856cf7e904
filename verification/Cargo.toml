[package]
name = "qe_monitor"
version = "1.0.0"
edition = "2021"
publish = false

[dependencies]
regex = "1"
ratatui = "0.29"
crossterm = "0.28"
chrono = "0.4"
