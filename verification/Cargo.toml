[package]
name = "rsvp_term"
version = "0.1.0"
edition = "2021"
publish = false

[dependencies]
markdown-it = "0.6"
html2text = "*"
epub = "*"
ratatui = "0.29"
crossterm = "0.28"
clap = { version = "4", features = ["derive"] }
