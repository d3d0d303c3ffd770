[package]
name = "paxcii"
version = "0.6.0"
edition = "2021"

[dependencies]
anyhow = "1"
clap = "4"
image = "0.24"
nokhwa = { version = "0.10", features = ["input-v4l"] }
rodio = "0.17"
term_size = "0.3"
