[package]
name = "tpe_driver"
version = "0.1.0"
edition = "2021"
publish = false

[dependencies]
serde = { version = "1", features = ["derive"] }
serde_json = "1"
serialport = { version = "4", default-features = false }
chrono = "0.4"
dirs = "*"
once_cell = "1"
