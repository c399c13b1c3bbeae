[package]
name = "zip_extract"
version = "0.1.0"
edition = "2021"
publish = false

[dependencies]
zip = { version = "*", default-features = false, features = ["deflate"] }
clap = "*"
indicatif = "*"
human_bytes = "*"
async-std = { version = "*", features = ["attributes"] }
