[package]
name = "igc_downloader"
version = "0.1.0"
edition = "2021"
publish = false

[dependencies]
clap = { version = "*", features = ["derive"] }
html-escape = "*"
indicatif = "*"
reqwest = { version = "*", default-features = false, features = ["rustls-tls"] }
scraper = "*"
tempfile = "*"
tokio = { version = "*", features = ["macros", "rt-multi-thread", "fs", "io-util"] }
url = "*"
