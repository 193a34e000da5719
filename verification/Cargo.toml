[package]
name = "cmux"
version = "0.1.0"
edition = "2021"
publish = false

[dependencies]
serde = { version = "=1.0.229", features = ["derive"] }
serde_json = "1"
log = "=0.4.35"
winit = "=0.30.13"
home = "=0.5.12"
windows-sys = { version = "=0.59.0", features = ["Win32_System_Console", "Win32_Foundation"] }
