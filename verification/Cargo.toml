[package]
name = "rust_usb"
version = "0.1.0"
edition = "2021"
publish = false

[dependencies]
log = "0.4"
nix = { version = "0.29", features = ["ioctl"] }
thiserror = "1"
tokio = { version = "1", features = ["rt", "rt-multi-thread"] }
udev = "0.9"
windows = { version = "0.58", features = ["Win32_Foundation", "Win32_Devices_DeviceAndDriverInstallation", "Win32_Devices_Usb", "Win32_Storage_FileSystem", "Win32_Security", "Win32_System_IO", "Win32_System_Threading"] }
