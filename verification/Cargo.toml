[package]
name = "numf"
version = "0.1.0"
edition = "2021"
publish = false

[dependencies]
anyhow = "1"
clap = { version = "4", features = ["derive"] }
fast32 = "*"
libpt = { version = "*", features = ["bintols", "cli", "log"] }
num = "0.4"
rand = "0.8"
