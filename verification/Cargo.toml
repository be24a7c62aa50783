[package]
name = "termview"
version = "0.1.0"
edition = "2021"
publish = false

[dependencies]
unicode-width = "=0.2.2"
pulldown-cmark = "=0.13.4"
crossterm = "=0.29.0"
ratatui = "=0.30.2"
pdf-extract = "=0.12.1"
viuer = { version = "=0.11.0", features = ["print-file"] }
