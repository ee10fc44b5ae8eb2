[package]
name = "reattach"
version = "0.1.0"
edition = "2021"
publish = false

[dependencies]
windows = { version = "=0.58.0", features = ["Win32_Foundation", "Win32_Security", "Win32_System_Console", "Win32_System_Environment", "Win32_System_Threading"] }
windows-core = "=0.58.0"
