[package]
name = "memflow_vdm"
version = "0.1.0"
edition = "2021"
publish = false

[dependencies]
memflow = "*"
thiserror = "*"
windows = { version = "*", features = ["Win32_Foundation", "Win32_Security", "Win32_Storage_FileSystem", "Win32_System_IO", "Win32_System_Services"] }
winreg = "*"
