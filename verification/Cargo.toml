[package]
name = "btama"
version = "0.1.0"
edition = "2021"
publish = false

[dependencies]
hudhook = { version = "0.8", default-features = false, features = ["dx9", "inject"] }
imgui = "0.12"
minhook-sys = "0.1"
windows = { version = "0.54", features = ["Win32_Foundation", "Win32_System_Memory", "Win32_System_SystemServices", "Win32_System_Threading", "Win32_System_Diagnostics_Debug", "Win32_System_LibraryLoader", "Win32_System_SystemInformation", "Win32_UI_Input_KeyboardAndMouse", "Win32_UI_WindowsAndMessaging"] }
