[package]
name = "adplay"
version = "1.1.0"
edition = "2021"
publish = false

[dependencies]
image = "0.24"
clap = "3"
ctrlc = "3"
rayon = "1"
rodio = "0.17"
terminal_size = "0.2"
