[package]
name = "qmkview"
version = "0.1.0"
edition = "2021"
publish = false

[dependencies]
serde = { version = "=1.0.229", features = ["derive"] }
serde_json = "=1.0.154"
thiserror = "=1.0.69"
tracing = "=0.1.44"
tracing-subscriber = { version = "=0.3.23", features = ["env-filter"] }
crossbeam-channel = "=0.5.17"
hidapi = { version = "=2.6.7", default-features = false, features = ["linux-native-basic-udev"] }
eframe = { version = "=0.29.1", default-features = false, features = ["default_fonts", "glow", "x11", "wayland"] }
egui = "=0.29.1"
