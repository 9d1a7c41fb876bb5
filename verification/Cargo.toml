[package]
name = "ultrasonic_sim"
version = "0.1.0"
edition = "2021"
publish = false

[dependencies]
bevy = { version = "=0.19.1", default-features = false }
avian2d = { version = "=0.7.0", default-features = false }
bevy_egui = { version = "=0.42.0", default-features = false }
