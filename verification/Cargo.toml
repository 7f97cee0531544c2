[package]
name = "lock_screen_carousel"
version = "0.1.0"
edition = "2021"
publish = false

[dependencies]
rand = "=0.9.5"
windows-registry = "=0.100.0"
windows-future = "=0.3.2"
windows-time = "*"
windows-window = "*"
windows-reactor = "*"
windows = { version = "=0.62.2", features = ["Foundation", "Storage", "Storage_Streams", "System_UserProfile", "Win32_Foundation", "Win32_Globalization", "Win32_Graphics_Gdi", "Win32_Security_Authentication_Identity", "Win32_System_Com", "Win32_System_TaskScheduler", "Win32_System_Variant", "Win32_UI_Shell", "Win32_UI_Shell_Common"] }
