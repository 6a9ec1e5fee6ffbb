[package]
name = "shieldtank"
version = "0.1.0"
edition = "2021"
publish = false

[dependencies]
regex = "=1.13.1"
uuid = { version = "=1.29.0", default-features = false }
bevy_platform = { version = "=0.19.1", default-features = false }
bevy_ldtk_asset = "=0.11.0"
bevy_app = { version = "=0.19.1", default-features = false }
bevy_asset = { version = "=0.19.1", default-features = false }
bevy_camera = { version = "=0.19.1", default-features = false }
bevy_color = { version = "=0.19.1", default-features = false }
bevy_derive = { version = "=0.19.1", default-features = false }
bevy_ecs = { version = "=0.19.1", default-features = false }
bevy_image = { version = "=0.19.1", default-features = false }
bevy_log = { version = "=0.19.1", default-features = false }
bevy_math = { version = "=0.19.1", default-features = false }
bevy_mesh = { version = "=0.19.1", default-features = false }
bevy_reflect = { version = "=0.19.1", default-features = false }
bevy_sprite = { version = "=0.19.1", default-features = false }
bevy_transform = { version = "=0.19.1", default-features = false }
either = { version = "=1.19.0", default-features = false }
image = { version = "=0.25.10", default-features = false }
