[package]
name = "cloudevents"
version = "0.1.0"
edition = "2021"
publish = false

[dependencies]
base64 = "=0.13.1"
chrono = "=0.4.45"
serde = "1"
serde_json = "=1.0.151"
url = "=2.5.8"
