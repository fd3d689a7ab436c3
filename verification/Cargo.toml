[package]
name = "the_chase"
version = "0.1.0"
edition = "2021"
publish = false

[dependencies]
anyhow = "1"
bevy = { version = "0.5", default-features = false, features = ["render"] }
bevy_kira_audio = { version = "0.5", default-features = false, features = ["ogg"] }
bevy_reflect = "0.5"
bevy_webgl2 = "0.5"
tiled = "0.9"
