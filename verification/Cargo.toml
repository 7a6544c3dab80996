[package]
name = "mclauncher_core"
version = "0.1.0"
edition = "2021"
publish = false

[dependencies]
roxmltree = "0.20"
time = { version = "0.3", features = ["formatting"] }
serde = { version = "1", features = ["derive"] }
serde_json = "1"
thiserror = "1"
reqwest = { version = "0.12", default-features = false, features = ["rustls-tls", "stream"] }
tokio = { version = "1", features = ["rt-multi-thread"] }
futures-util = "0.3"
winreg = "0.52"
native-windows-gui = "1.0.13"
native-windows-derive = "1.0.5"
windows = { version = "0.58", features = ["Management_Deployment", "ApplicationModel", "Foundation_Collections", "Storage", "Win32_System_Services", "Win32_System_WinRT", "Win32_Security"] }
