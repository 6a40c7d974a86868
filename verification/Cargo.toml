[package]
name = "pokemon_inix"
version = "0.1.0"
edition = "2021"
publish = false

[dependencies]
csv = "=1.4.0"
rand = "=0.8.8"
clap = { version = "=4.6.7", features = ["derive"] }
viuer = { version = "=0.11.0", features = ["print-file"] }
