[package]
name = "habit_tracker"
version = "0.1.0"
edition = "2021"
publish = false

[dependencies]
chrono = { version = "=0.4.45", features = ["serde"] }
clap = { version = "=4.6.7", features = ["derive"] }
comfy-table = "=7.2.2"
eframe = { version = "0.21", default-features = false, features = ["glow"] }
ron = "=0.8.1"
serde = { version = "=1.0.229", features = ["derive"] }
