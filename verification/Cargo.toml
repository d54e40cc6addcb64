[package]
name = "bevy_tiled_coords"
version = "0.1.0"
edition = "2021"
publish = false

[dependencies]
bevy = { version = "0.19.1", default-features = false }
bevy_ecs_tiled = { version = "0.13.4", default-features = false }
tiled = "*"
