[package]
name = "rdyn_plugins"
version = "0.1.0"
edition = "2021"
publish = false

[dependencies]
bevy = { version = "0.8", default-features = false }
libloading = "0.6"
quote = "1"
syn = "1"
