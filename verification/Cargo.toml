[package]
name = "bevy_rui"
version = "0.1.0"
edition = "2021"
publish = false

[dependencies]
ropey = "=1.6.1"
syntect = { version = "=5.3.0", default-features = false, features = ["default-fancy"] }
arboard = "=3.7.0"
bevy = { version = "=0.18.1", default-features = false, features = ["std", "bevy_ui", "bevy_text", "bevy_window", "bevy_input_focus", "bevy_asset", "bevy_color", "bevy_picking", "ui_picking", "gamepad", "keyboard", "mouse"] }
