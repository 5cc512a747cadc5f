[package]
name = "wizard_survivors"
version = "0.1.0"
edition = "2021"
publish = false

[dependencies]
bevy = { version = "=0.17.3", default-features = false, features = ["std"] }
bevy_rand = { version = "0.12", features = ["wyrand"] }
rand = "=0.9.5"
serde = { version = "=1.0.229", features = ["derive"] }
