[package]
name = "weather_banner"
version = "0.1.0"
edition = "2021"
publish = false

[dependencies]
cairo-rs = { version = "0.18", features = ["png"] }
chrono = { version = "0.4", features = ["serde"] }
clap = { version = "4", features = ["derive"] }
csv = "1"
flate2 = "1"
regex = "1"
reqwest = { version = "0.11", features = ["blocking"] }
serde = { version = "1", features = ["derive"] }
serde_json = "1"
tar = "0.4"
