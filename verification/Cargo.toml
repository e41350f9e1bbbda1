[package]
name = "ebelt"
version = "0.1.0"
edition = "2021"
publish = false

[dependencies]
clap = { version = "3.2", features = ["derive"] }
crossterm = "0.25"
oxidebpf = "*"
tui = "0.19"
