[package]
name = "applechu"
version = "0.1.0"
edition = "2021"
publish = false

[dependencies]
toml = "=0.8.23"
once_cell = "=1.21.4"
windows-sys = { version = "=0.59.0", features = ["Win32_Foundation", "Win32_System_Threading", "Win32_System_LibraryLoader", "Win32_System_Memory", "Win32_System_IO", "Win32_System_Time", "Win32_System_SystemInformation", "Win32_System_Console", "Win32_Storage_FileSystem", "Win32_System_Diagnostics_Debug", "Win32_System_Performance", "Win32_System_ProcessStatus"] }
