[package]
name = "twitch-overlay"
version = "0.1.0"
edition = "2021"
publish = false

[dependencies]
serde = { version = "1", features = ["derive"] }
toml = "0.8"
dirs = "*"
interprocess = "2"
gtk4 = "*"
gdk4 = "*"
gtk4-layer-shell = "*"
webkit6 = "*"
cairo-rs = "*"
