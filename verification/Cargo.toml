[package]
name = "asteroids_core"
version = "0.1.0"
edition = "2021"
publish = false

[dependencies]
rand = "0.8"
bevy = { version = "0.14", default-features = false }
avian2d = { version = "0.1", default-features = false, features = ["2d", "f32", "parry-f32"] }
