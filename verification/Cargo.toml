[package]
name = "snippets"
version = "0.1.0"
edition = "2021"
publish = false

[dependencies]
syntect = { version = "5", default-features = false, features = ["default-fancy"] }
serde = { version = "1", features = ["derive"] }
serde_json = "1"
anyhow = "1"
clap = { version = "3.2", features = ["derive"] }
crossterm = "0.25"
tui = "0.19"
unicode-width = "0.1"
