[package]
name = "ptui"
version = "0.1.0"
edition = "2021"
publish = false

[dependencies]
anyhow = "*"
clap = { version = "*", features = ["derive"] }
crossterm = "*"
glob = "*"
itertools = "*"
owo-colors = "*"
regex = "*"
unicode-width = "*"
