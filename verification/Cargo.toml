[package]
name = "zipmt_rust"
version = "0.1.0"
edition = "2021"
publish = false

[dependencies]
flate2 = "1"
bzip2 = "0.4"
xz2 = "0.1"
clap = { version = "4", features = ["derive"] }
ctrlc = "3"
crossterm = "0.28"
ratatui = "0.28"
rayon = "1"
tempfile = "3"
