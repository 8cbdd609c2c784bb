[package]
name = "gpu_shark"
version = "0.2.4-beta.3"
edition = "2021"
publish = false

[dependencies]
libloading = "=0.8.9"
serde = { version = "=1.0.229", features = ["derive"] }
serde_json = "=1.0.154"
sha2 = "=0.10.9"
windows-sys = { version = "=0.52.0", features = ["Win32_Foundation", "Win32_Graphics_Gdi", "Win32_Graphics_Dwm", "Win32_UI_WindowsAndMessaging", "Win32_UI_HiDpi", "Win32_UI_Shell", "Win32_System_LibraryLoader", "Win32_Networking_WinHttp", "Win32_UI_Controls"] }
