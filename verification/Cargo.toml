[package]
name = "mmp"
version = "0.1.0"
edition = "2021"
publish = false

[dependencies]
atty = "0.2"
chrono = "0.4"
clap = { version = "4", features = ["derive"] }
orion = "0.17"
rand = "0.8"
regex = "1"
serde = { version = "1", features = ["derive"] }
serde_yaml = "0.9"
sha2 = "0.10"
termion = "*"
