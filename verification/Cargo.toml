[package]
name = "amlich"
version = "0.1.0"
edition = "2021"
publish = false

[dependencies]
chrono = "0.4"
rustbox = "0.11"
tui = { version = "0.7", features = ["rustbox"] }
