[package]
name = "witch_common"
version = "0.1.0"
edition = "2021"
publish = false

[dependencies]
anyhow = "=1.0.104"
clap = { version = "=4.6.7", features = ["derive"] }
colog = "=1.4.0"
colored = "=3.1.1"
env_logger = "=0.11.11"
flexi_logger = "=0.31.10"
hudhook = "*"
iced-x86 = "=1.22.0"
libc = "=0.2.191"
log = "=0.4.35"
log-panics = "=2.1.0"
minidump = "=0.27.0"
serde = { version = "=1.0.229", features = ["derive"] }
serde_json = "=1.0.154"
toml = "=1.1.8"
toml_edit = "=0.25.17"
windows = { version = "*", features = ["Win32_Foundation", "Win32_Security", "Win32_System_Diagnostics_Debug", "Win32_System_LibraryLoader", "Win32_System_Memory", "Win32_System_ProcessStatus", "Win32_System_SystemServices", "Win32_System_Threading"] }
