[package]
name = "gugle"
version = "0.1.0"
edition = "2021"
publish = false

[dependencies]
rtrb = "0.3"
serde = { version = "1", features = ["derive"] }
thiserror = "1"
anyhow = "1"
windows = { version = "0.58", features = ["Win32_Media_Audio", "Win32_System_Com", "Win32_Foundation"] }
