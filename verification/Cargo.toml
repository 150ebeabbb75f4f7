[package]
name = "dch"
version = "0.1.0"
edition = "2021"
publish = false

[dependencies]
chrono = { version = "0.4", default-features = false, features = ["std", "clock"] }
regex = "1"
yaml-rust = "0.4"
clap = { version = "4", default-features = false, features = ["std", "help", "usage", "error-context"] }
