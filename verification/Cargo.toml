[package]
name = "pc_bridge"
version = "0.1.0"
edition = "2021"
publish = false

[dependencies]
anyhow = "1"
base64 = "=0.22.1"
bytes = "1"
env_logger = "0.11"
log = "0.4"
native-tls = "0.2"
notify = "=8.2.1"
rpassword = "=7.5.4"
rumqttc = { version = "=0.25.1", default-features = false, features = ["use-native-tls"] }
serde = { version = "1", features = ["derive"] }
serde_json = { version = "=1.0.154", features = ["float_roundtrip"] }
tokio = { version = "1", features = ["full"] }
wayland-client = "=0.31.15"
wayland-protocols = { version = "=0.32.13", features = ["client", "staging"] }
wayland-protocols-wlr = { version = "=0.3.12", features = ["client"] }
windows = { version = "=0.58.0", features = [
    "Data_Xml_Dom",
    "UI_Notifications",
    "Win32_Devices_DeviceAndDriverInstallation",
    "Win32_Devices_Display",
    "Win32_Devices_Properties",
    "Win32_Foundation",
    "Win32_Graphics_Gdi",
    "Win32_Media_Audio",
    "Win32_Media_Audio_Endpoints",
    "Win32_Security",
    "Win32_Security_Cryptography",
    "Win32_System_Com",
    "Win32_System_Com_StructuredStorage",
    "Win32_System_Console",
    "Win32_System_Diagnostics_ToolHelp",
    "Win32_System_JobObjects",
    "Win32_System_Memory",
    "Win32_System_Power",
    "Win32_System_Shutdown",
    "Win32_System_StationsAndDesktops",
    "Win32_System_Threading",
    "Win32_System_Variant",
    "Win32_UI_Input_KeyboardAndMouse",
    "Win32_UI_Shell_PropertiesSystem",
    "Win32_UI_WindowsAndMessaging",
] }
x11rb = { version = "=0.14.0", features = ["screensaver", "dpms", "xtest"] }
zbus = "=6.2.1"
