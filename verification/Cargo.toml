[package]
name = "mouse_clipboard"
version = "0.1.0"
edition = "2021"
publish = false

[dependencies]
anyhow = "1"
ctrlc = "3"
evdev = "0.13"
