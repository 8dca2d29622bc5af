[package]
name = "mx_gestures"
version = "0.1.0"
edition = "2021"
publish = false

[dependencies]
serde = { version = "=1.0.229", features = ["derive"] }
toml = "=1.1.8"
hidapi = { version = "=2.6.7", default-features = false, features = ["linux-native-basic-udev"] }
core-graphics = "=0.25.0"
