[package]
name = "msglint"
version = "0.1.0"
edition = "2021"
publish = false

[dependencies]
typos = "*"
typos-cli = "*"
clap = { version = "*", features = ["derive"] }
anyhow = "*"
colored = "*"
