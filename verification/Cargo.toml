[package]
name = "nova_protocol"
version = "0.1.0"
edition = "2021"
publish = false

[dependencies]
bevy = { version = "=0.17.3", default-features = false, features = ["std", "bevy_log", "bevy_state", "bevy_mesh", "bevy_color"] }
inventory = "=0.3.25"
rand = "=0.9.5"
serde = "=1.0.229"
serde_json = "=1.0.154"
