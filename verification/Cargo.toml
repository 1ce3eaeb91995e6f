[package]
name = "cross_booster"
version = "1.0.0"
edition = "2021"
publish = false

[dependencies]
encoding_rs = "*"
eframe = { version = "*", default-features = false }
winreg = "*"
windows-sys = { version = "*", features = ["Win32_Globalization"] }
