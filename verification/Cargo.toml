[package]
name = "romf"
version = "0.1.0"
edition = "2021"
publish = false

[dependencies]
urlencoding = "2"
serde_json = "1"
chrono = "0.4"
rand = "0.8"
tide = "0.16"
async-std = "1"
