[package]
name = "il2cpp_bridge_rs"
version = "0.1.0"
edition = "2021"
publish = false

[dependencies]
dashmap = "*"
once_cell = "*"
libc = "*"
log = "*"
env_logger = "*"
thiserror = "*"
glam = "*"
mach2 = "*"
oslog = "*"
windows-sys = { version = "*", features = ["Win32_Foundation", "Win32_System_LibraryLoader"] }
