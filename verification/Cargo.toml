[package]
name = "fde"
version = "0.1.0"
edition = "2021"
publish = false

[dependencies]
anyhow = "1"
crossbeam-channel = "0.5"
ctrlc = "3"
dashmap = "6"
etcetera = "*"
ignore = "0.4"
lscolors = "*"
rayon = "1"
regex = "1"
regex-syntax = "0.8"

[dev-dependencies]
tempfile = "3"
