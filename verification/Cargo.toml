[package]
name = "hashoverlay"
version = "0.1.0"
edition = "2021"
publish = false

[dependencies]
serde = { version = "1", features = ["derive"] }
toml = "*"
log = "*"
anyhow = "*"
env_logger = "*"
windows-sys = { version = "*", features = ["Win32_Foundation", "Win32_System_Memory", "Win32_Storage_FileSystem", "Win32_System_Pipes", "Win32_System_Threading", "Win32_UI_Input_KeyboardAndMouse", "Win32_UI_WindowsAndMessaging"] }
