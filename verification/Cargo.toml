[package]
name = "mqtt_kv"
version = "0.1.0"
edition = "2021"
publish = false

[dependencies]
uuid = { version = "1", features = ["v4"] }
serde = { version = "1", features = ["derive"] }
serde_json = "1"
paho-mqtt = { version = "0.12", default-features = false, features = ["bundled"] }
ctrlc = "3"
