[package]
name = "party_league"
version = "0.1.0"
edition = "2021"
publish = false

[dependencies]
time = "*"
chrono = "*"
serde = { version = "*", features = ["derive"] }
serde_json = "*"
