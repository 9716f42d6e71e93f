[package]
name = "prtsc"
version = "0.1.0"
edition = "2021"
publish = false

[dependencies]
ashpd = { version = "=0.13.13", features = ["screenshot", "screencast"] }
fdk-aac = "=0.8.0"
mp4 = "=0.14.0"
openh264 = "=0.9.9"
pipewire = "=0.10.1"
rmcp = { version = "=3.8.0", features = ["server", "macros", "transport-io"] }
tokio = { version = "=1.54.1", features = ["full"] }
