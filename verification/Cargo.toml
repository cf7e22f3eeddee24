[package]
name = "jexrey_alarm"
version = "0.1.0"
edition = "2021"
publish = false

[dependencies]
chrono = "0.4"
serde = { version = "1", features = ["derive"] }
serde_json = "1"
dirs = "5"
egui = "0.27"
sysinfo = "0.30"
