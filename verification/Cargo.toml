[package]
name = "apod_crawl"
version = "0.1.0"
edition = "2021"
publish = false

[dependencies]
regex = "=1.13.1"
crabler = "=0.1.28"
clap = { version = "=4.6.7", features = ["derive"] }
log = "=0.4.34"
async-std = { version = "=1.13.2", features = ["attributes"] }
