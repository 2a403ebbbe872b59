[package]
name = "radiall"
version = "0.1.0"
edition = "2021"
publish = false

[dependencies]
x11rb = "=0.14.0"
wayland-client = "=0.31.15"
wayland-protocols-plasma = { version = "=0.3.12", features = ["client"] }
wayland-protocols-wlr = { version = "=0.3.12", features = ["client"] }
serde = { version = "=1.0.229", features = ["derive"] }
serde_json = "=1.0.154"
dirs = "=7.0.0"
log = "=0.4.35"
env_logger = "=0.11.11"
zbus = "=5.19.0"
image = { version = "=0.25.10", default-features = false, features = ["png"] }
lnk = "=0.6.4"
parking_lot = "=0.13.0"
windows-sys = { version = "=0.61.2", features = ["Win32_Foundation", "Win32_Storage_FileSystem", "Win32_System_Pipes", "Win32_Graphics_Dwm", "Win32_System_Threading", "Win32_UI_WindowsAndMessaging", "Win32_UI_Input_KeyboardAndMouse", "Win32_Graphics_Gdi", "Win32_System_Com", "Win32_UI_Shell"] }
