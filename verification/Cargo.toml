[package]
name = "escape_time"
version = "0.1.0"
edition = "2021"
publish = false

[dependencies]
chrono = "*"
crossterm = "*"
image = "*"
indicatif = "*"
num = "*"
