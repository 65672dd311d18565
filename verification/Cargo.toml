[package]
name = "rynx_browser"
version = "0.1.0"
edition = "2021"
publish = false

[dependencies]
unicode-width = "*"
url = "*"
scraper = "*"
ego-tree = "*"
ratatui = "*"
crossterm = "*"
reqwest = { version = "*", default-features = false }
tokio = { version = "*", features = ["rt-multi-thread", "macros", "sync", "time"] }
