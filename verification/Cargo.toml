[package]
name = "smoldr"
version = "0.1.0"
edition = "2021"
publish = false

[dependencies]
bitflags = "=2.13.2"
clap = { version = "=4.6.7", features = ["derive"] }
half = { version = "=2.7.1", features = ["num-traits"] }
humantime = "=2.4.0"
index_vec = "=0.1.4"
memchr = "=2.8.3"
miette = { version = "=7.6.0", features = ["fancy"] }
num-traits = "=0.2.19"
tempfile = "=3.27.0"
thiserror = "=2.0.21"
tracing = "=0.1.44"
tracing-subscriber = { version = "=0.3.23", features = ["env-filter"] }
windows = { version = "=0.59.0", features = ["Win32_Foundation", "Win32_Graphics_Direct3D", "Win32_Graphics_Direct3D12", "Win32_Graphics_Direct3D_Dxc", "Win32_Graphics_Dxgi", "Win32_Graphics_Dxgi_Common", "Win32_Graphics_Gdi", "Win32_Security", "Win32_System_Com", "Win32_System_Console", "Win32_System_Diagnostics_Debug", "Win32_System_Kernel", "Win32_System_LibraryLoader", "Win32_System_Threading", "Win32_UI_Input_KeyboardAndMouse", "Win32_UI_WindowsAndMessaging"] }

[dev-dependencies]
winnow = "=0.7.15"
