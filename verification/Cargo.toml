[package]
name = "atextwin"
version = "0.1.0"
edition = "2021"
publish = false

[dependencies]
chrono = "0.4"
arboard = "3"
serde = { version = "1", features = ["derive"] }
serde_json = "1"
rdev = "0.5"
enigo = "0.3"
windows = { version = "0.56", features = ["Win32_Foundation", "Win32_System_ProcessStatus", "Win32_System_Threading", "Win32_UI_WindowsAndMessaging"] }
