[package]
name = "vdsleep"
version = "0.1.0"
edition = "2021"
publish = false

[dependencies]
once_cell = "1"
parking_lot = "0.12"
serde = { version = "1", features = ["derive"] }
serde_json = "1"
sysinfo = "0.33"
windows = { version = "0.58", features = ["Win32_Foundation", "Win32_Media_Audio", "Win32_Media_Audio_Endpoints", "Win32_System_Com", "Win32_Devices_Display", "Win32_Graphics_Gdi", "Win32_UI_WindowsAndMessaging", "Win32_System_LibraryLoader", "Win32_NetworkManagement_IpHelper", "Win32_Networking_WinSock"] }
