[package]
name = "virtualcam"
version = "1.0.0"
edition = "2021"
publish = false

[dependencies]
libc = "0.2"
log = "0.4"
anyhow = "1"
thiserror = "2"
winreg = "0.55"
cudarc = "*"
windows = { version = "0.61", features = ["Win32_Foundation", "Win32_Security", "Win32_Security_Authorization", "Win32_System_Memory", "Win32_System_SystemInformation", "Win32_System_Threading", "Win32_System_Performance", "Win32_UI_Shell", "Win32_UI_WindowsAndMessaging", "Win32_Media_MediaFoundation", "Win32_System_Com"] }
