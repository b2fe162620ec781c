[package]
name = "grr"
version = "0.1.0"
edition = "2021"
publish = false

[dependencies]
libadwaita = "*"
gtk4 = "*"
gtk4-layer-shell = "*"
async-channel = "2"
confy = "*"
niri-ipc = "*"
serde = { version = "1", features = ["derive"] }
time-format = "*"
zbus = "5"
