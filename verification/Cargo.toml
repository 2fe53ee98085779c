[package]
name = "capture_devices"
version = "0.1.0"
edition = "2021"
publish = false

[dependencies]
anyhow = "=1.0.104"
nix = { version = "=0.29.0", features = ["ioctl"] }
opencv = "=0.101.1"
regex = "=1.13.1"
windows = { version = "=0.52.0", features = ["Win32_Foundation", "Win32_Media_MediaFoundation", "Win32_System_Com", "Win32_System_WinRT"] }
