[package]
name = "usiem_elasticsearch"
version = "0.1.0"
edition = "2021"
publish = false

[dependencies]
serde_json = "1"
fastrand = "1"
chrono = "0.4"
crossbeam-channel = "0.5"
tide = "0.16"
async-std = "1"
reqwest = { version = "0.11", default-features = false, features = ["blocking"] }
