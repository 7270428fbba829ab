[package]
name = "punc"
version = "0.3.3"
edition = "2021"
publish = false

[dependencies]
ropey = "1.6"
similar = "2"
unicode-width = "0.2"
crossterm = "0.28"
ratatui = "0.29"
notify = "8"
