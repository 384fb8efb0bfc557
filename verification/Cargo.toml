[package]
name = "netsync"
version = "0.1.0"
edition = "2021"
publish = false

[dependencies]
bevy = { version = "=0.10.1", default-features = false, features = ["bevy_animation", "bevy_asset", "bevy_scene", "bevy_render"] }
bevy_mod_outline = "=0.4.3"
bevy_rapier3d = "=0.21.0"
bevy_renet = "=0.0.7"
bevy_replicon = "=0.2.3"
bincode = "=1.3.3"
num_enum = "=0.6.1"
serde = { version = "=1.0.229", features = ["derive"] }
strum = { version = "=0.24.1", features = ["derive"] }
tap = "=1.0.1"
