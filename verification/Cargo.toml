[package]
name = "movement"
version = "0.1.0"
edition = "2021"
publish = false

[dependencies]
bcs = "=0.1.6"
hex = "=0.4.3"
base64 = "=0.13.1"
serde = { version = "=1.0.229", features = ["derive"] }
serde_json = "=1.0.154"
move-core-types = "=0.0.3"
url = "=2.5.8"
serde_yaml = "0.9"
