[package]
name = "ctfterm"
version = "0.1.0"
edition = "2021"
publish = false

[dependencies]
scraper = "*"
quick-xml = "*"
reqwest = { version = "*", default-features = false }
tokio = { version = "*", features = ["rt-multi-thread", "macros", "time", "sync"] }
crossterm = "0.25"
tui = "0.19"
futures = "*"
