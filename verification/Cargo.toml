[package]
name = "sandbox"
version = "0.1.0"
edition = "2021"
publish = false

[dependencies]
clap = { version = "4", features = ["derive"] }
sudo = "0.6"
uuid = { version = "1", features = ["v4"] }
wait-timeout = "0.2"
