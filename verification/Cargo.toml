[package]
name = "opml_manager"
version = "0.1.0"
edition = "2021"
publish = false

[dependencies]
roxmltree = "*"
url = "*"
chrono = "*"
reqwest = { version = "*", default-features = false }
tokio = { version = "*", features = ["rt-multi-thread", "macros", "time"] }
clap = { version = "*", features = ["derive"] }
crossterm = "*"
ratatui = "*"
futures = "*"
