[package]
name = "elb-log-parser"
version = "0.1.0"
edition = "2021"
publish = false

[dependencies]
anyhow = "*"
clap = { version = "*", features = ["derive"] }
clap_complete = "*"
crossbeam-channel = "*"
flate2 = "*"
walkdir = "*"
