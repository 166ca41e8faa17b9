[package]
name = "mailcode"
version = "0.1.0"
edition = "2021"
publish = false

[dependencies]
mail-parser = "*"
chrono = "0.4"
rust-pop3-client = "*"
serde = { version = "1", features = ["derive"] }
serde_json = "1"
