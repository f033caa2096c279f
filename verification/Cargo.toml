[package]
name = "logibar"
version = "0.1.0"
edition = "2021"
publish = false

[dependencies]
anyhow = "1"
hidapi = { version = "2", default-features = false, features = ["linux-native-basic-udev"] }
serde = { version = "1", features = ["derive"] }
tracing = "0.1"
tracing-subscriber = { version = "0.3", features = ["env-filter"] }
