[package]
name = "sprite_grid"
version = "0.1.0"
edition = "2021"
publish = false

[dependencies]
bevy = { version = "0.8", default-features = false, features = ["bevy_render", "bevy_sprite", "bevy_core_pipeline", "bevy_asset"] }
copyless = "0.1"
