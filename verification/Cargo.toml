[package]
name = "can_fuzzer"
version = "0.1.0"
edition = "2021"
publish = false

[dependencies]
rand = "0.8"
chrono = "0.4"
socketcan = "1.7"
serde = { version = "1", features = ["derive"] }
serde_json = "1"
clap = "2"
ctrlc = "3"
