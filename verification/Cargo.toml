[package]
name = "attention"
version = "0.1.0"
edition = "2021"
publish = false

[dependencies]
anyhow = "*"
dirs = "*"
discord-rich-presence = "*"
lofty = "*"
rodio = "*"
