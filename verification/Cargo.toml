[package]
name = "termplay"
version = "0.1.0"
edition = "2021"
publish = false

[dependencies]
ansi_colours = "=1.2.3"
base64ct = "=1.8.3"
clap = { version = "=4.6.7", features = ["derive"] }
ctrlc = "=3.5.2"
signal-hook = "=0.4.5"
termsize = "=0.1.9"
