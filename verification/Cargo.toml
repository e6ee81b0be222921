[package]
name = "minecraft_status"
version = "0.1.0"
edition = "2021"
publish = false

[dependencies]
base64 = "=0.22.1"
chrono = "=0.4.45"
identicon-rs = "*"
image = "*"
mcping = "=0.2.0"
