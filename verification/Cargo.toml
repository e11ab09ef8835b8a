[package]
name = "three_body"
version = "0.1.0"
edition = "2021"
publish = false

[dependencies]
bevy = { version = "0.8", default-features = false, features = ["render", "bevy_winit", "png", "x11"] }
bevy_egui = { version = "0.15", default-features = false }
