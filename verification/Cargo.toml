[package]
name = "application"
version = "0.1.0"
edition = "2021"
publish = false

[dependencies]
num = "=0.4.3"
serde = { version = "=1.0.229", features = ["derive"] }
serde_json = "=1.0.154"
directories = "=5.0.1"
indexmap = "2"
rand = "0.8"
