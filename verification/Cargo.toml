[package]
name = "typr"
version = "0.1.0"
edition = "2021"
publish = false

[dependencies]
rand = "0.8"
clap = { version = "4", features = ["derive"] }
crossterm = "0.27"
chrono = "0.4"
serde = { version = "1", features = ["derive"] }
serde_json = "1"
