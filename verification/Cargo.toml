[package]
name = "daydream"
version = "0.1.0"
edition = "2021"
publish = false

[dependencies]
iced-x86 = "=1.22.0"
ms-pdb = "=0.1.22"
serde_json = "=1.0.154"
windows-sys = { version = "=0.61.2", features = ["Win32_Foundation", "Win32_Security", "Win32_Security_Cryptography", "Win32_System_Diagnostics_Debug", "Win32_System_Diagnostics_ToolHelp", "Win32_System_Kernel", "Win32_System_LibraryLoader", "Win32_System_Memory", "Win32_System_SystemInformation", "Win32_System_SystemServices", "Win32_System_Threading", "Win32_System_WindowsProgramming"] }
