[package]
name = "codex_companion"
version = "0.1.0"
edition = "2021"
publish = false

[dependencies]
anyhow = "=1.0.104"
axum = { version = "=0.8.9", features = ["ws"] }
chrono = "=0.4.45"
clap = { version = "=4.6.7", features = ["derive"] }
dirs = "=7.0.0"
futures = "=0.3.34"
image = { version = "=0.25.10", default-features = false, features = ["png"] }
rand = "=0.9.5"
reqwest = { version = "=0.12.28", default-features = false, features = ["json"] }
serde = { version = "=1.0.229", features = ["derive"] }
serde_json = "=1.0.154"
sha1 = "=0.10.7"
tokio = { version = "=1.54.1", features = ["full"] }
tracing = "=0.1.44"
windows = { version = "0.58", features = ["Data_Xml_Dom", "Foundation", "UI_Notifications", "Win32_Foundation", "Win32_Graphics_Gdi", "Win32_System_Com", "Win32_System_Com_StructuredStorage", "Win32_System_Variant", "Win32_UI_Shell", "Win32_UI_Shell_PropertiesSystem", "Win32_UI_WindowsAndMessaging"] }
