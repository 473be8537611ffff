[package]
name = "stamp_desk"
version = "0.1.0"
edition = "2021"
publish = false

[dependencies]
bevy = { version = "0.9", default-features = false, features = ["bevy_asset", "bevy_winit", "bevy_render", "bevy_core_pipeline", "bevy_sprite", "bevy_text", "png", "x11"] }
iyes_loopless = "0.9"
ordered-float = "3"
