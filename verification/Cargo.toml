[package]
name = "pvz_mod_loader"
version = "0.1.0"
edition = "2021"
publish = false

[dependencies]
pelite = "0.9"
serde = { version = "1", features = ["derive"] }
toml = "0.5"
walkdir = "2"
windows = { version = "0.35", features = ["Win32_Foundation", "Win32_Security", "Win32_System_Diagnostics_Debug", "Win32_System_Kernel", "Win32_System_LibraryLoader", "Win32_System_Memory", "Win32_System_SystemServices", "Win32_System_Threading", "Win32_UI_WindowsAndMessaging"] }
