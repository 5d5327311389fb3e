[package]
name = "niri_switch"
version = "0.1.0"
edition = "2021"
publish = false

[dependencies]
async-channel = "=2.5.0"
clap = { version = "=4.6.7", features = ["derive"] }
niri-ipc = "=26.4.0"
nix = { version = "=0.31.3", features = ["fs"] }
zbus = "=5.19.0"
