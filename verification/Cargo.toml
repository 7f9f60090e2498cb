[package]
name = "retro_dither"
version = "0.1.0"
edition = "2021"
publish = false

[dependencies]
color_quant = "=1.1.0"
image = { version = "0.25", default-features = false, features = ["png", "jpeg"] }
base64 = "0.22"
tauri = { version = "2", default-features = false }
tauri-plugin-fs = "2"
tauri-plugin-log = "2"
