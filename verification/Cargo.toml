[package]
name = "rclone_shuttle"
version = "0.1.0"
edition = "2021"
publish = false

[dependencies]
serde = { version = "*", features = ["derive"] }
serde_json = "*"
size_format = "*"
time = { version = "*", features = ["serde-well-known", "formatting", "parsing"] }
uuid = { version = "*", features = ["v4"] }
confy = "*"
dirs = "*"
open = "*"
