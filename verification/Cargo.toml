[package]
name = "combat_core"
version = "0.1.0"
edition = "2021"
publish = false

[dependencies]
bevy = { version = "0.15", default-features = false, features = ["animation", "bevy_asset", "bevy_state", "bevy_color", "bevy_core_pipeline", "bevy_gizmos", "bevy_gltf", "bevy_pbr", "bevy_render", "bevy_scene", "bevy_window"] }
avian3d = "0.2"
bevy_health_bar3d = "3.4"
bevy-tnua = "0.21"
bevy-tnua-avian3d = "0.2"
rand = "0.9"
