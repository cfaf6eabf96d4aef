[package]
name = "discord_tray"
version = "0.1.0"
edition = "2021"
publish = false

[dependencies]
image = { version = "0.25", default-features = false, features = ["png", "ico"] }
cfg-if = "1"
muda = "*"
tao = "*"
tray-icon = "*"
wry = "*"
objc2 = "*"
objc2-app-kit = "*"
objc2-foundation = "*"
