[package]
name = "nn"
version = "0.1.0"
edition = "2021"
publish = false

[dependencies]
anyhow = "1"
battery = "0.7"
chrono = "0.4"
clap = { version = "4", features = ["derive"] }
home = "0.5"
hyprland = "*"
serde_json = "1"
