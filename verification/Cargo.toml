[package]
name = "rev_idle"
version = "0.1.0"
edition = "2021"
publish = false

[dependencies]
serde = { version = "=1.0.229", features = ["derive"] }
serde_json = "=1.0.154"
tokio = { version = "=1.54.1", features = ["rt", "macros", "sync", "time", "net", "signal", "fs"] }
uuid = { version = "=1.29.0", features = ["v4", "serde"] }
futures-util = { version = "=0.3.34", features = ["sink"] }
tokio-tungstenite = "=0.30.0"
reqwest = { version = "=0.12.28", default-features = false, features = ["json"] }
rquickjs = { version = "=0.14.0", features = ["futures", "loader", "macro", "classes", "properties"] }
oxc = { version = "=0.138.0", features = ["transformer", "codegen", "semantic"] }
windows = { version = "=0.62.2", features = ["Win32_Foundation", "Win32_Graphics_Gdi", "Win32_UI_WindowsAndMessaging", "Win32_System_Threading", "Win32_System_Console", "Win32_System_DataExchange", "Win32_System_Memory", "Win32_System_Ole", "Win32_System_LibraryLoader", "Win32_UI_Input_KeyboardAndMouse"] }
