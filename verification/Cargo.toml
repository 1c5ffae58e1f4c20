[package]
name = "server_monitor"
version = "0.1.0"
edition = "2021"
publish = false

[dependencies]
chrono = "=0.4.45"
rfd = { version = "0.15.4", default-features = false, features = ["gtk3"] }
tray-item = "0.10.0"
