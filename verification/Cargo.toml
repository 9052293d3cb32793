[package]
name = "yascan"
version = "0.1.0"
edition = "2021"
publish = false

[dependencies]
chrono = "0.4"
ratatui = "0.29"
crossterm = "0.28"
colored = "2"
dialoguer = "0.11"
glob = "0.3"
atty = "0.2"
ureq = "3"
zip = { version = "2", default-features = false, features = ["deflate"] }
