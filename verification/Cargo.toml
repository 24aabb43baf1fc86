[package]
name = "rust_video_devices"
version = "0.1.0"
edition = "2021"
publish = false

[dependencies]
anyhow = "=1.0.104"
image = { version = "=0.25.10", default-features = false, features = ["jpeg", "png"] }
nokhwa = { version = "=0.10.11", default-features = false, features = ["camera-sync-impl"] }
rgb = "=0.8.53"
slint = { version = "=1.18.1", default-features = false, features = ["std", "compat-1-2"] }
windows = { version = "=0.58.0", features = ["Win32_Foundation", "Win32_System_Com", "Win32_Media_MediaFoundation", "Win32_UI_Shell", "Win32_UI_WindowsAndMessaging", "Win32_Security", "Win32_System_Threading"] }
