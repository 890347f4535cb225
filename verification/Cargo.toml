[package]
name = "rusty-panel"
version = "0.1.0"
edition = "2021"
publish = false

[dependencies]
dirs = "=7.0.0"
env_logger = "=0.11.11"
hidapi = { version = "=2.6.7", default-features = false, features = ["linux-native-basic-udev"] }
log = "=0.4.34"
serde = { version = "=1.0.229", features = ["derive"] }
toml = "=1.1.8"
