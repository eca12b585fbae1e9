[package]
name = "purgedisk"
version = "0.1.0"
edition = "2021"
publish = false

[dependencies]
ring = "=0.17.14"
chrono = "=0.4.45"
hostname = "=0.4.2"
rand = "=0.8.8"
serde = { version = "=1.0.229", features = ["derive"] }
serde_json = "=1.0.154"
clap = { version = "=4.6.7", features = ["derive"] }
crossterm = "=0.28.1"
ratatui = "=0.29.0"
dirs = "=5.0.1"
env_logger = "=0.11.11"
log = "=0.4.35"
thiserror = "=1.0.69"
parking_lot = "=0.12.5"
anyhow = "=1.0.104"
windows-sys = { version = "=0.59.0", features = ["Win32_Foundation", "Win32_Storage_FileSystem", "Win32_System_Ioctl", "Win32_System_IO"] }
