[package]
name = "flightthepower"
version = "0.1.0"
edition = "2021"
publish = false

[dependencies]
bevy = { version = "0.15", default-features = false, features = ["bevy_state"] }
directories = "5"
hashbrown = "0.14"
ron = "0.8"
serde = { version = "1", features = ["derive"] }
