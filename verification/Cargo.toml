[package]
name = "fan_control"
version = "0.1.0"
edition = "2021"
publish = false

[dependencies]
gpio-cdev = "0.6"
sysinfo = { version = "0.29", default-features = false }
