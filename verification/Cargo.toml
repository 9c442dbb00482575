[package]
name = "shadowcast"
version = "0.1.0"
edition = "2021"
publish = false

[dependencies]
bevy = { version = "=0.7.0", default-features = false, features = ["bevy_render", "bevy_core_pipeline", "bevy_sprite", "bevy_winit", "x11"] }
ordered-float = "=3.9.2"
# bevy 0.7's derive crates use syn 1 items that sit behind its `full` feature
# without asking for it; darling's macro crate switches that feature on.
darling = "=0.13.4"
