[package]
name = "enjoi"
version = "0.1.0"
edition = "2021"
publish = false

[dependencies]
scraper = "*"
clap = "*"
colored = "*"
reqwest = { version = "*", default-features = false, features = ["blocking"] }
urlencoding = "*"
