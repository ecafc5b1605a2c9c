[package]
name = "giant_file_exchange"
version = "0.1.0"
edition = "2021"
publish = false

[dependencies]
anyhow = "1"
base64 = "0.22"
chrono = { version = "0.4", default-features = false, features = ["clock", "std"] }
clipboard-win = "5"
eframe = { version = "0.37", default-features = false, features = ["default_fonts", "glow", "x11"] }
futures-util = { version = "0.3", default-features = false, features = ["std"] }
global-hotkey = "*"
reqwest = { version = "0.12", default-features = false, features = ["multipart", "stream", "rustls-tls"] }
rfd = { version = "0.17", default-features = false }
tray-icon = { version = "0.26", default-features = false }
serde = { version = "1", features = ["derive"] }
serde_json = "1"
single-instance = "0.3"
tokio = { version = "1", features = ["rt-multi-thread", "fs", "time"] }
tokio-util = { version = "0.7", features = ["io"] }
url = "2"
windows-sys = { version = "0.61", features = ["Win32_Foundation", "Win32_Security_Cryptography", "Win32_Storage_FileSystem", "Win32_System_IO", "Win32_System_Pipes", "Win32_Security", "Win32_UI_Input_KeyboardAndMouse", "Win32_UI_Shell", "Win32_UI_WindowsAndMessaging"] }
winreg = "*"
