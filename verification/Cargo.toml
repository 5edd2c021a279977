[package]
name = "all_in"
version = "0.1.0"
edition = "2021"
publish = false

[dependencies]
bevy = { version = "=0.19.1", default-features = false, features = ["bevy_ui", "bevy_state", "bevy_window", "bevy_text", "bevy_asset"] }
