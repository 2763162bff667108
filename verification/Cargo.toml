[package]
name = "mecano"
version = "0.2.2"
edition = "2021"
publish = false

[dependencies]
rand = "0.8"
crossterm = "0.27"
serde = { version = "1", features = ["derive"] }
toml = "0.8"
dirs = "5"
