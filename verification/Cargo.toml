[package]
name = "rustdac"
version = "0.1.0"
edition = "2021"
publish = false

[dependencies]
aec3 = "=0.1.8"
anyhow = "=1.0.104"
cpal = "0.17"
crossbeam-channel = "=0.5.17"
crossterm = "=0.29.0"
ratatui = "=0.29.0"
sysinfo = { version = "0.38", default-features = false, features = ["system"] }
wasapi = "0.22"
windows = { version = "0.62", features = ["Win32_Foundation", "Win32_Devices_Properties", "Win32_Media_Audio", "Win32_System_Com", "Win32_System_Com_StructuredStorage", "Win32_System_Threading", "Win32_System_Variant", "Win32_UI_Shell_PropertiesSystem"] }
