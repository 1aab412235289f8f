[package]
name = "zappaw"
version = "0.1.0"
edition = "2021"
publish = false

[dependencies]
unicode-width = "=0.1.11"
crossterm = "0.28"
ratatui = "0.29"
reqwest = { version = "0.12", default-features = false, features = ["blocking", "json"] }
serde = { version = "1", features = ["derive"] }
