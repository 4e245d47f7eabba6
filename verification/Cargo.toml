[package]
name = "winderust"
version = "0.1.0"
edition = "2021"
publish = false

[dependencies]
windows-sys = { version = "=0.59.0", features = ["Win32_Foundation", "Win32_Security", "Win32_System_Threading", "Win32_System_Diagnostics_ToolHelp", "Win32_System_SystemInformation", "Win32_System_ProcessStatus", "Win32_System_RemoteDesktop", "Win32_UI_WindowsAndMessaging", "Wdk_Graphics_Direct3D"] }
