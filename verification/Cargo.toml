[package]
name = "scap"
version = "0.1.0"
edition = "2021"
publish = false

[dependencies]
core-graphics = "*"
core-video-sys = "*"
screencapturekit = "*"
screencapturekit-sys = "*"
sysinfo = "*"
