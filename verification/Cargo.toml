[package]
name = "monitor_app"
version = "0.1.0"
edition = "2021"
publish = false

[dependencies]
sysinfo = { version = "=0.33.1", default-features = false, features = ["system", "network", "disk"] }
iced = { version = "=0.14.0", default-features = false, features = ["canvas", "tokio", "tiny-skia", "x11"] }
tray-icon = "=0.26.1"
