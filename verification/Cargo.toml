[package]
name = "carre"
version = "0.1.0"
edition = "2021"
publish = false

[dependencies]
fastrand = "=2.5.0"
bevy = { version = "0.17", default-features = false, features = ["std", "bevy_state"] }
